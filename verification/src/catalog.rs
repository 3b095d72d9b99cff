//! The catalog: every playable file found under the scan root, each with a
//! group label derived from its parent directory, in a fixed deterministic
//! order (root-label group first, other groups lexicographic, filenames
//! lexicographic within a group, full path as the final tie-break).

use vstd::prelude::*;
use vstd::string::{StrSliceExecFns, StringExecFns};

verus! {

/// One discovered video file: its path relative to the scan root
/// (`/`-separated) and the derived group label.
#[derive(Debug)]
pub struct CatalogEntry {
    pub path: String,
    pub group: String,
}

/// Ghost image of a catalog entry, as character sequences.
#[verifier::ext_equal]
pub ghost struct EntryView {
    pub path: Seq<char>,
    pub group: Seq<char>,
}

impl View for CatalogEntry {
    type V = EntryView;

    open spec fn view(&self) -> EntryView {
        EntryView { path: self.path@, group: self.group@ }
    }
}

impl Clone for CatalogEntry {
    fn clone(&self) -> (r: Self)
        ensures
            r == *self,
    {
        CatalogEntry { path: self.path.clone(), group: self.group.clone() }
    }
}

/// The sequence of ghost images of a sequence of entries.
pub open spec fn entry_views(s: Seq<CatalogEntry>) -> Seq<EntryView> {
    s.map_values(|e: CatalogEntry| e@)
}

/// Index of the last occurrence of `c` in `p`, or `-1` if there is none.
pub open spec fn last_idx_of(p: Seq<char>, c: char) -> int
    decreases p.len(),
{
    if p.len() == 0 {
        -1
    } else if p[p.len() - 1] == c {
        p.len() - 1
    } else {
        last_idx_of(p.drop_last(), c)
    }
}

/// Index of the last `/` in `p`, or `-1` if there is none.
pub open spec fn last_slash_idx(p: Seq<char>) -> int {
    last_idx_of(p, '/')
}

/// Index of the last `.` in `f`, or `-1` if there is none.
pub open spec fn last_dot_idx(f: Seq<char>) -> int {
    last_idx_of(f, '.')
}

/// The final path component: everything after the last `/`.
pub open spec fn file_name_of(p: Seq<char>) -> Seq<char> {
    p.subrange(last_slash_idx(p) + 1, p.len() as int)
}

/// The label of the group a path belongs to: the name of its immediate
/// parent directory, or the root label for a path directly under the root.
pub open spec fn root_label() -> Seq<char> {
    seq!['R', 'o', 'o', 't']
}

pub open spec fn group_of(p: Seq<char>) -> Seq<char> {
    if last_slash_idx(p) < 0 {
        root_label()
    } else {
        file_name_of(p.subrange(0, last_slash_idx(p)))
    }
}

/// The catalog entry a kept path turns into.
pub open spec fn entry_of(p: Seq<char>) -> EntryView {
    EntryView { path: p, group: group_of(p) }
}

/// `c` matches `l` up to ASCII case, where `l` is already lowercase.
pub open spec fn char_matches_lower(c: char, l: char) -> bool {
    c == l || (65 <= c as u32 && c as u32 <= 90 && c as u32 + 32 == l as u32)
}

/// `s` equals the lowercase word `l` up to ASCII case.
pub open spec fn matches_lower(s: Seq<char>, l: Seq<char>) -> bool {
    s.len() == l.len() && (forall|i: int|
        0 <= i < s.len() ==> char_matches_lower(s[i], #[trigger] l[i]))
}

/// The extension of a file name: what follows the last `.`, provided that
/// dot is neither absent nor the leading character (a leading dot marks a
/// hidden name, not an extension).
pub open spec fn extension_of(f: Seq<char>) -> Seq<char> {
    f.subrange(last_dot_idx(f) + 1, f.len() as int)
}

/// A file name carries a recognized video extension, compared
/// ASCII-case-insensitively.
pub open spec fn is_video_name(f: Seq<char>) -> bool {
    &&& last_dot_idx(f) >= 1
    &&& {
        let e = extension_of(f);
        ||| matches_lower(e, seq!['m', 'p', '4'])
        ||| matches_lower(e, seq!['m', 'k', 'v'])
        ||| matches_lower(e, seq!['a', 'v', 'i'])
        ||| matches_lower(e, seq!['m', 'o', 'v'])
        ||| matches_lower(e, seq!['w', 'e', 'b', 'm'])
        ||| matches_lower(e, seq!['m', '4', 'v'])
    }
}

/// The path component beginning at `i` starts with the reserved metadata
/// prefix `._`: position `i` opens a component (start of the path or right
/// after a `/`) and is followed by `.` then `_`.
pub open spec fn reserved_at(p: Seq<char>, i: int) -> bool {
    &&& 0 <= i
    &&& i + 1 < p.len()
    &&& (i == 0 || p[i - 1] == '/')
    &&& p[i] == '.'
    &&& p[i + 1] == '_'
}

/// Some component of the path — the file's own name or any directory on
/// the way to it — begins with the reserved metadata prefix.
pub open spec fn has_reserved_component(p: Seq<char>) -> bool {
    exists|i: int| reserved_at(p, i)
}

/// A scanned path belongs in the catalog: recognized video extension on
/// its file name, and no reserved-prefix file or directory anywhere in the
/// path.
pub open spec fn keep_path(p: Seq<char>) -> bool {
    is_video_name(file_name_of(p)) && !has_reserved_component(p)
}

/// Lexicographic order on character sequences by unicode scalar value,
/// a shorter sequence preceding every proper extension of it.
pub open spec fn lex_le(a: Seq<char>, b: Seq<char>) -> bool
    decreases a.len(),
{
    if a.len() == 0 {
        true
    } else if b.len() == 0 {
        false
    } else if a[0] < b[0] {
        true
    } else if a[0] > b[0] {
        false
    } else {
        lex_le(a.drop_first(), b.drop_first())
    }
}

/// Sort rank of a group label: the root label sorts before every other.
pub open spec fn group_rank(g: Seq<char>) -> int {
    if g == root_label() {
        0
    } else {
        1
    }
}

/// The catalog order: root group first, then groups lexicographically,
/// file names lexicographically within a group, full path as tie-break.
pub open spec fn entry_le(x: EntryView, y: EntryView) -> bool {
    if group_rank(x.group) != group_rank(y.group) {
        group_rank(x.group) < group_rank(y.group)
    } else if x.group != y.group {
        lex_le(x.group, y.group)
    } else if file_name_of(x.path) != file_name_of(y.path) {
        lex_le(file_name_of(x.path), file_name_of(y.path))
    } else {
        lex_le(x.path, y.path)
    }
}

/// Pairwise sortedness of a catalog under `entry_le`.
pub open spec fn catalog_sorted(s: Seq<EntryView>) -> bool {
    forall|i: int, j: int| 0 <= i < j < s.len() ==> entry_le(#[trigger] s[i], #[trigger] s[j])
}

pub proof fn lemma_lex_le_total(a: Seq<char>, b: Seq<char>)
    ensures
        lex_le(a, b) || lex_le(b, a),
    decreases a.len(),
{
    if a.len() == 0 || b.len() == 0 {
    } else if a[0] == b[0] {
        lemma_lex_le_total(a.drop_first(), b.drop_first());
    }
}

pub proof fn lemma_lex_le_antisym(a: Seq<char>, b: Seq<char>)
    requires
        lex_le(a, b),
        lex_le(b, a),
    ensures
        a == b,
    decreases a.len(),
{
    if a.len() == 0 {
        assert(b.len() == 0);
        assert(a =~= b);
    } else {
        assert(a[0] == b[0]);
        lemma_lex_le_antisym(a.drop_first(), b.drop_first());
        assert(a.drop_first().len() == b.drop_first().len());
        assert(a.len() == b.len());
        assert forall|i: int| 0 <= i < a.len() implies a[i] == b[i] by {
            if i > 0 {
                assert(a[i] == a.drop_first()[i - 1]);
                assert(b[i] == b.drop_first()[i - 1]);
            }
        }
        assert(a =~= b);
    }
}

pub proof fn lemma_lex_le_trans(a: Seq<char>, b: Seq<char>, c: Seq<char>)
    requires
        lex_le(a, b),
        lex_le(b, c),
    ensures
        lex_le(a, c),
    decreases a.len(),
{
    if a.len() == 0 || b.len() == 0 || c.len() == 0 {
    } else if a[0] == b[0] && b[0] == c[0] {
        lemma_lex_le_trans(a.drop_first(), b.drop_first(), c.drop_first());
    }
}

/// A path is playable when its file name carries a video extension.
pub open spec fn is_video_path(p: Seq<char>) -> bool {
    is_video_name(file_name_of(p))
}

proof fn lemma_last_idx_of_step(p: Seq<char>, c: char, i: int)
    requires
        0 <= i < p.len(),
    ensures
        last_idx_of(p.take(i + 1), c) == if p[i] == c {
            i
        } else {
            last_idx_of(p.take(i), c)
        },
{
    let q = p.take(i + 1);
    assert(q[i] == p[i]);
    assert(q.drop_last() =~= p.take(i));
}

/// Finds the index of the last occurrence of `c` in `s`, if any.
fn last_index_of_char(s: &str, c: char) -> (r: Option<usize>)
    ensures
        match r {
            Some(k) => last_idx_of(s@, c) == k as int && (k as int) < s@.len(),
            None => last_idx_of(s@, c) == -1,
        },
{
    let n: usize = s.unicode_len();
    let mut res: Option<usize> = None;
    let mut i: usize = 0;
    proof {
        assert(s@.take(0) =~= Seq::<char>::empty());
    }
    while i < n
        invariant
            i <= n,
            n == s@.len(),
            match res {
                Some(k) => last_idx_of(s@.take(i as int), c) == k as int && (k as int) < i
                    as int,
                None => last_idx_of(s@.take(i as int), c) == -1,
            },
        decreases n - i,
    {
        let ch = s.get_char(i);
        proof {
            lemma_last_idx_of_step(s@, c, i as int);
        }
        if ch == c {
            res = Some(i);
        }
        i = i + 1;
    }
    proof {
        assert(s@.take(n as int) =~= s@);
    }
    res
}

/// Character-for-character string equality, meaning equality of the views.
pub fn str_eq(a: &str, b: &str) -> (r: bool)
    ensures
        r == (a@ == b@),
{
    let na: usize = a.unicode_len();
    let nb: usize = b.unicode_len();
    if na != nb {
        return false;
    }
    let mut i: usize = 0;
    while i < na
        invariant
            i <= na,
            na == a@.len(),
            na == b@.len(),
            forall|j: int| 0 <= j < i ==> a@[j] == b@[j],
        decreases na - i,
    {
        if a.get_char(i) != b.get_char(i) {
            return false;
        }
        i = i + 1;
    }
    proof {
        assert(a@ =~= b@);
    }
    true
}

/// Does `s` equal the lowercase word `l`, ignoring ASCII case in `s`?
fn eq_lower(s: &str, l: &str) -> (r: bool)
    ensures
        r == matches_lower(s@, l@),
{
    let ns: usize = s.unicode_len();
    let nl: usize = l.unicode_len();
    if ns != nl {
        return false;
    }
    let mut i: usize = 0;
    while i < ns
        invariant
            i <= ns,
            ns == s@.len(),
            ns == l@.len(),
            forall|j: int| 0 <= j < i ==> char_matches_lower(s@[j], #[trigger] l@[j]),
        decreases ns - i,
    {
        let cs = s.get_char(i);
        let cl = l.get_char(i);
        let us: u32 = cs as u32;
        let ul: u32 = cl as u32;
        if !(cs == cl || (65 <= us && us <= 90 && us + 32 == ul)) {
            return false;
        }
        i = i + 1;
    }
    true
}

/// The final component of a path: everything after the last `/`.
pub fn file_name_part<'a>(path: &'a str) -> (r: &'a str)
    ensures
        r@ == file_name_of(path@),
{
    let n: usize = path.unicode_len();
    match last_index_of_char(path, '/') {
        None => {
            proof {
                assert(path@.subrange(0, path@.len() as int) =~= path@);
            }
            path
        },
        Some(k) => path.substring_char(k + 1, n),
    }
}

/// The group label a path falls under: the name of its immediate parent
/// directory, or the root label when the path has no directory part.
pub fn group_of_path(path: &str) -> (g: String)
    ensures
        g@ == group_of(path@),
{
    match last_index_of_char(path, '/') {
        None => {
            proof {
                reveal_strlit("Root");
                assert("Root"@ =~= root_label());
            }
            "Root".to_owned()
        },
        Some(k) => {
            let parent = path.substring_char(0, k);
            let name = file_name_part(parent);
            name.to_owned()
        },
    }
}

/// Does the path name a file with a recognized video extension
/// (ASCII-case-insensitive)?
pub fn is_video(path: &str) -> (r: bool)
    ensures
        r == is_video_path(path@),
{
    let name = file_name_part(path);
    let n: usize = name.unicode_len();
    match last_index_of_char(name, '.') {
        None => false,
        Some(k) => {
            if k < 1 {
                false
            } else {
                let ext = name.substring_char(k + 1, n);
                proof {
                    reveal_strlit("mp4");
                    reveal_strlit("mkv");
                    reveal_strlit("avi");
                    reveal_strlit("mov");
                    reveal_strlit("webm");
                    reveal_strlit("m4v");
                    assert("mp4"@ =~= seq!['m', 'p', '4']);
                    assert("mkv"@ =~= seq!['m', 'k', 'v']);
                    assert("avi"@ =~= seq!['a', 'v', 'i']);
                    assert("mov"@ =~= seq!['m', 'o', 'v']);
                    assert("webm"@ =~= seq!['w', 'e', 'b', 'm']);
                    assert("m4v"@ =~= seq!['m', '4', 'v']);
                }
                eq_lower(ext, "mp4") || eq_lower(ext, "mkv") || eq_lower(ext, "avi")
                    || eq_lower(ext, "mov") || eq_lower(ext, "webm") || eq_lower(ext, "m4v")
            }
        },
    }
}

/// Does a scanned path belong in the catalog? A file under or bearing a
/// reserved-prefix name is excluded even when its extension is recognized.
#[verifier::loop_isolation(false)]
pub fn keep_file(path: &str) -> (r: bool)
    ensures
        r == keep_path(path@),
{
    let n: usize = path.unicode_len();
    let mut i: usize = 0;
    while i < n
        invariant
            i <= n,
            forall|j: int| 0 <= j < i ==> !reserved_at(path@, j),
        decreases n - i,
    {
        if i + 1 < n {
            let boundary: bool = i == 0 || path.get_char(i - 1) == '/';
            if boundary && path.get_char(i) == '.' && path.get_char(i + 1) == '_' {
                proof {
                    assert(reserved_at(path@, i as int));
                }
                return false;
            }
        }
        proof {
            assert(!reserved_at(path@, i as int));
        }
        i = i + 1;
    }
    proof {
        assert forall|j: int| !reserved_at(path@, j) by {
            if 0 <= j && j + 1 < path@.len() {
                assert(j < i as int);
            }
        }
    }
    is_video(path)
}

pub proof fn lemma_entry_le_total(x: EntryView, y: EntryView)
    ensures
        entry_le(x, y) || entry_le(y, x),
{
    lemma_lex_le_total(x.group, y.group);
    lemma_lex_le_total(file_name_of(x.path), file_name_of(y.path));
    lemma_lex_le_total(x.path, y.path);
}

pub proof fn lemma_entry_le_antisym(x: EntryView, y: EntryView)
    requires
        entry_le(x, y),
        entry_le(y, x),
    ensures
        x == y,
{
    if x.group != y.group {
        if group_rank(x.group) == group_rank(y.group) {
            lemma_lex_le_antisym(x.group, y.group);
        }
        assert(false);
    }
    if file_name_of(x.path) != file_name_of(y.path) {
        lemma_lex_le_antisym(file_name_of(x.path), file_name_of(y.path));
        assert(false);
    }
    lemma_lex_le_antisym(x.path, y.path);
    assert(x =~= y);
}

pub proof fn lemma_entry_le_trans(x: EntryView, y: EntryView, z: EntryView)
    requires
        entry_le(x, y),
        entry_le(y, z),
    ensures
        entry_le(x, z),
{
    let gx = x.group;
    let gy = y.group;
    let gz = z.group;
    assert(group_rank(gx) <= group_rank(gy));
    assert(group_rank(gy) <= group_rank(gz));
    if group_rank(gx) == group_rank(gz) {
        if gx != gz {
            if gx == gy {
            } else if gy == gz {
            } else {
                lemma_lex_le_trans(gx, gy, gz);
            }
        } else {
            if gx != gy {
                lemma_lex_le_antisym(gx, gy);
                assert(false);
            }
            let fx = file_name_of(x.path);
            let fy = file_name_of(y.path);
            let fz = file_name_of(z.path);
            if fx != fz {
                if fx == fy {
                } else if fy == fz {
                } else {
                    lemma_lex_le_trans(fx, fy, fz);
                }
            } else {
                if fx != fy {
                    lemma_lex_le_antisym(fx, fy);
                    assert(false);
                }
                lemma_lex_le_trans(x.path, y.path, z.path);
            }
        }
    }
}

/// Decides `lex_le` on the views of two strings.
fn lex_le_exec(a: &str, b: &str) -> (r: bool)
    ensures
        r == lex_le(a@, b@),
{
    let na: usize = a.unicode_len();
    let nb: usize = b.unicode_len();
    let mut i: usize = 0;
    proof {
        assert(a@.skip(0) =~= a@);
        assert(b@.skip(0) =~= b@);
    }
    while i < na && i < nb
        invariant
            i <= na,
            i <= nb,
            na == a@.len(),
            nb == b@.len(),
            lex_le(a@, b@) == lex_le(a@.skip(i as int), b@.skip(i as int)),
        decreases na - i,
    {
        let ca = a.get_char(i);
        let cb = b.get_char(i);
        if ca < cb {
            return true;
        }
        if cb < ca {
            return false;
        }
        proof {
            assert(a@.skip(i as int).drop_first() =~= a@.skip(i as int + 1));
            assert(b@.skip(i as int).drop_first() =~= b@.skip(i as int + 1));
        }
        i = i + 1;
    }
    na <= nb
}

/// Decides the catalog order on two entries.
fn entry_le_exec(a: &CatalogEntry, b: &CatalogEntry) -> (r: bool)
    ensures
        r == entry_le(a@, b@),
{
    proof {
        reveal_strlit("Root");
        assert("Root"@ =~= root_label());
    }
    let a_root = str_eq(a.group.as_str(), "Root");
    let b_root = str_eq(b.group.as_str(), "Root");
    if a_root != b_root {
        return a_root;
    }
    if !str_eq(a.group.as_str(), b.group.as_str()) {
        return lex_le_exec(a.group.as_str(), b.group.as_str());
    }
    let fa = file_name_part(a.path.as_str());
    let fb = file_name_part(b.path.as_str());
    if !str_eq(fa, fb) {
        return lex_le_exec(fa, fb);
    }
    lex_le_exec(a.path.as_str(), b.path.as_str())
}

proof fn lemma_insert_multiset<A>(s: Seq<A>, pos: int, e: A)
    requires
        0 <= pos <= s.len(),
    ensures
        s.insert(pos, e).to_multiset() == s.to_multiset().insert(e),
{
    broadcast use vstd::seq_lib::group_to_multiset_ensures;

    let front = s.subrange(0, pos);
    let back = s.subrange(pos, s.len() as int);
    assert(s.insert(pos, e) == front.push(e) + back);
    vstd::seq_lib::lemma_multiset_commutative(front.push(e), back);
    assert(s =~= front + back);
    vstd::seq_lib::lemma_multiset_commutative(front, back);
    assert(front.push(e).to_multiset() =~= front.to_multiset().insert(e));
    assert(front.to_multiset().insert(e).add(back.to_multiset()) =~= front.to_multiset().add(
        back.to_multiset(),
    ).insert(e));
}

/// Places one entry into an already sorted catalog, keeping it sorted.
fn sorted_insert(out: &mut Vec<CatalogEntry>, e: CatalogEntry)
    requires
        catalog_sorted(entry_views(old(out)@)),
    ensures
        final(out)@.len() == old(out)@.len() + 1,
        catalog_sorted(entry_views(final(out)@)),
        entry_views(final(out)@).to_multiset() == entry_views(old(out)@).to_multiset().insert(
            e@,
        ),
{
    let ghost vs = entry_views(out@);
    let mut j: usize = 0;
    while j < out.len() && entry_le_exec(&out[j], &e)
        invariant
            j <= out.len(),
            out@ == old(out)@,
            vs == entry_views(out@),
            forall|k: int| 0 <= k < j ==> entry_le(#[trigger] vs[k], e@),
        decreases out.len() - j,
    {
        j = j + 1;
    }
    proof {
        if (j as int) < vs.len() {
            lemma_entry_le_total(vs[j as int], e@);
            assert(entry_le(e@, vs[j as int]));
        }
    }
    out.insert(j, e);
    proof {
        let t = entry_views(out@);
        assert(t =~= vs.insert(j as int, e@)) by {
            vs.insert_ensures(j as int, e@);
        }
        assert(catalog_sorted(t)) by {
            vs.insert_ensures(j as int, e@);
            assert forall|x: int, y: int| 0 <= x < y < t.len() implies entry_le(t[x], t[y]) by {
                if y < j {
                    assert(t[x] == vs[x] && t[y] == vs[y]);
                } else if y == j {
                    assert(t[x] == vs[x] && t[y] == e@);
                } else if x > j {
                    assert(t[x] == vs[x - 1] && t[y] == vs[y - 1]);
                } else if x == j {
                    assert(t[x] == e@ && t[y] == vs[y - 1]);
                    if y - 1 > j {
                        lemma_entry_le_trans(e@, vs[j as int], vs[y - 1]);
                    }
                } else {
                    assert(t[x] == vs[x] && t[y] == vs[y - 1]);
                }
            }
        }
        lemma_insert_multiset(vs, j as int, e@);
    }
}

/// The spec-level filter: which scanned paths are kept.
pub open spec fn keep_pred() -> spec_fn(Seq<char>) -> bool {
    |p: Seq<char>| keep_path(p)
}

/// The spec-level entry constructor used for kept paths.
pub open spec fn entry_fn() -> spec_fn(Seq<char>) -> EntryView {
    |p: Seq<char>| entry_of(p)
}

/// The views of a sequence of path strings.
pub open spec fn path_views(ps: Seq<String>) -> Seq<Seq<char>> {
    ps.map_values(|s: String| s@)
}

/// The scanned paths that are kept, in scan order.
pub open spec fn kept_paths(ps: Seq<Seq<char>>) -> Seq<Seq<char>> {
    ps.filter(keep_pred())
}

/// The entries the kept paths turn into, in scan order.
pub open spec fn kept_entries(ps: Seq<Seq<char>>) -> Seq<EntryView> {
    kept_paths(ps).map_values(entry_fn())
}

proof fn lemma_kept_entries_step(ps: Seq<Seq<char>>, i: int)
    requires
        0 <= i < ps.len(),
    ensures
        keep_pred()(ps[i]) ==> kept_entries(ps.take(i + 1)).to_multiset() == kept_entries(
            ps.take(i),
        ).to_multiset().insert(entry_of(ps[i])),
        !keep_pred()(ps[i]) ==> kept_entries(ps.take(i + 1)) == kept_entries(ps.take(i)),
{
    broadcast use vstd::seq_lib::group_to_multiset_ensures;

    reveal_with_fuel(Seq::filter, 3);
    let a = ps.take(i);
    let x = ps[i];
    assert(ps.take(i + 1) =~= a + seq![x]);
    Seq::filter_distributes_over_add(a, seq![x], keep_pred());
    assert(Seq::<Seq<char>>::empty().filter(keep_pred()) =~= Seq::<Seq<char>>::empty());
    assert(seq![x].drop_last() =~= Seq::<Seq<char>>::empty());
    if keep_pred()(x) {
        assert(seq![x].filter(keep_pred()) =~= seq![x]);
        assert(kept_paths(ps.take(i + 1)) =~= kept_paths(a) + seq![x]);
        assert(kept_entries(ps.take(i + 1)) =~= kept_entries(a).push(entry_of(x)));
    } else {
        assert(seq![x].filter(keep_pred()) =~= Seq::<Seq<char>>::empty());
        assert(kept_paths(ps.take(i + 1)) =~= kept_paths(a));
        assert(kept_entries(ps.take(i + 1)) =~= kept_entries(a));
    }
}

/// Builds the catalog from the scanned relative paths: keeps exactly the
/// recognized, non-reserved video files, labels each with its group, and
/// sorts the result into the catalog order.
pub fn build_catalog(paths: &Vec<String>) -> (r: Vec<CatalogEntry>)
    ensures
        catalog_sorted(entry_views(r@)),
        entry_views(r@).to_multiset() == kept_entries(path_views(paths@)).to_multiset(),
        r@.len() == kept_paths(path_views(paths@)).len(),
{
    broadcast use vstd::seq_lib::group_to_multiset_ensures;

    let ghost ps = path_views(paths@);
    let mut out: Vec<CatalogEntry> = Vec::new();
    let mut i: usize = 0;
    proof {
        assert(entry_views(out@) =~= Seq::<EntryView>::empty());
        assert(ps.take(0) =~= Seq::<Seq<char>>::empty());
        assert(kept_paths(ps.take(0)) =~= Seq::<Seq<char>>::empty());
        assert(kept_entries(ps.take(0)) =~= Seq::<EntryView>::empty());
        assert(entry_views(out@).to_multiset() =~= kept_entries(ps.take(0)).to_multiset());
    }
    while i < paths.len()
        invariant
            i <= paths.len(),
            ps == path_views(paths@),
            ps.len() == paths@.len(),
            catalog_sorted(entry_views(out@)),
            entry_views(out@).to_multiset() == kept_entries(ps.take(i as int)).to_multiset(),
        decreases paths.len() - i,
    {
        let p: &String = &paths[i];
        proof {
            assert(ps[i as int] == p@);
        }
        if keep_file(p.as_str()) {
            let group = group_of_path(p.as_str());
            let entry = CatalogEntry { path: p.clone(), group };
            proof {
                assert(entry@ =~= entry_of(p@));
            }
            sorted_insert(&mut out, entry);
        }
        proof {
            lemma_kept_entries_step(ps, i as int);
        }
        i = i + 1;
    }
    proof {
        assert(ps.take(paths@.len() as int) =~= ps);
        assert(entry_views(out@).len() == entry_views(out@).to_multiset().len());
        assert(kept_entries(ps).len() == kept_entries(ps).to_multiset().len());
    }
    out
}

pub proof fn lemma_lex_le_refl(a: Seq<char>)
    ensures
        lex_le(a, a),
    decreases a.len(),
{
    if a.len() > 0 {
        lemma_lex_le_refl(a.drop_first());
    }
}

proof fn lemma_sorted_tail(s: Seq<EntryView>)
    requires
        catalog_sorted(s),
        s.len() > 0,
    ensures
        catalog_sorted(s.drop_first()),
{
    let t = s.drop_first();
    assert forall|i: int, j: int| 0 <= i < j < t.len() implies entry_le(t[i], t[j]) by {
        assert(t[i] == s[i + 1]);
        assert(t[j] == s[j + 1]);
    }
}

/// Two sorted catalogs holding the same entries, occurrence for occurrence,
/// are the same sequence: the catalog order leaves no freedom.
pub proof fn lemma_sorted_catalog_unique(s1: Seq<EntryView>, s2: Seq<EntryView>)
    requires
        catalog_sorted(s1),
        catalog_sorted(s2),
        s1.to_multiset() == s2.to_multiset(),
    ensures
        s1 == s2,
    decreases s1.len(),
{
    broadcast use vstd::seq_lib::group_to_multiset_ensures;

    if s1.len() == 0 {
        assert(s2.len() == s2.to_multiset().len());
        assert(s1 =~= s2);
    } else {
        assert(s2.len() == s2.to_multiset().len());
        assert(s2.len() > 0);
        assert(s1.contains(s1[0]));
        assert(s2.to_multiset().count(s1[0]) > 0);
        assert(s2.contains(s1[0]));
        let i = choose|i: int| 0 <= i < s2.len() && s2[i] == s1[0];
        assert(s2.contains(s2[0]));
        assert(s1.to_multiset().count(s2[0]) > 0);
        assert(s1.contains(s2[0]));
        let j = choose|j: int| 0 <= j < s1.len() && s1[j] == s2[0];
        if i > 0 {
            assert(entry_le(s2[0], s2[i]));
        } else {
            lemma_lex_le_refl(s2[0].path);
            assert(entry_le(s2[0], s1[0]));
        }
        if j > 0 {
            assert(entry_le(s1[0], s1[j]));
        } else {
            lemma_lex_le_refl(s1[0].path);
            assert(entry_le(s1[0], s2[0]));
        }
        lemma_entry_le_antisym(s1[0], s2[0]);
        assert(s1.drop_first() =~= s1.remove(0));
        assert(s2.drop_first() =~= s2.remove(0));
        assert(s1.remove(0).to_multiset() =~= s1.to_multiset().remove(s1[0]));
        assert(s2.remove(0).to_multiset() =~= s2.to_multiset().remove(s2[0]));
        lemma_sorted_tail(s1);
        lemma_sorted_tail(s2);
        lemma_sorted_catalog_unique(s1.drop_first(), s2.drop_first());
        assert forall|k: int| 0 <= k < s1.len() implies s1[k] == s2[k] by {
            if k > 0 {
                assert(s1[k] == s1.drop_first()[k - 1]);
                assert(s2[k] == s2.drop_first()[k - 1]);
            }
        }
        assert(s1 =~= s2);
    }
}

/// Scanning an unchanged tree again gives a byte-identical catalog: any two
/// outcomes that `build_catalog` allows for the same scanned paths coincide.
pub proof fn lemma_catalog_deterministic(
    c1: Seq<EntryView>,
    c2: Seq<EntryView>,
    ps: Seq<Seq<char>>,
)
    requires
        catalog_sorted(c1),
        c1.to_multiset() == kept_entries(ps).to_multiset(),
        catalog_sorted(c2),
        c2.to_multiset() == kept_entries(ps).to_multiset(),
    ensures
        c1 == c2,
{
    lemma_sorted_catalog_unique(c1, c2);
}

/// The grouping shape of a sorted catalog: every root-label entry precedes
/// every other entry, distinct non-root groups appear in lexicographic
/// order, and file names are lexicographically ordered within a group.
pub proof fn lemma_catalog_grouping(s: Seq<EntryView>)
    requires
        catalog_sorted(s),
    ensures
        forall|i: int, j: int|
            0 <= i < s.len() && 0 <= j < s.len() && #[trigger] s[i].group == root_label()
                && #[trigger] s[j].group != root_label() ==> i < j,
        forall|i: int, j: int|
            0 <= i < j < s.len() && #[trigger] s[i].group != root_label()
                && #[trigger] s[j].group != root_label() ==> lex_le(s[i].group, s[j].group),
        forall|i: int, j: int|
            0 <= i < j < s.len() && #[trigger] s[i].group == #[trigger] s[j].group ==> lex_le(
                file_name_of(s[i].path),
                file_name_of(s[j].path),
            ),
{
    assert forall|i: int, j: int|
        0 <= i < s.len() && 0 <= j < s.len() && #[trigger] s[i].group == root_label()
            && #[trigger] s[j].group != root_label() implies i < j by {
        if j < i {
            assert(entry_le(s[j], s[i]));
            assert(group_rank(s[j].group) == 1 && group_rank(s[i].group) == 0);
            assert(false);
        }
        assert(i != j);
    }
    assert forall|i: int, j: int|
        0 <= i < j < s.len() && #[trigger] s[i].group != root_label()
            && #[trigger] s[j].group != root_label() implies lex_le(
        s[i].group,
        s[j].group,
    ) by {
        assert(entry_le(s[i], s[j]));
        if s[i].group == s[j].group {
            lemma_lex_le_refl(s[i].group);
        }
    }
    assert forall|i: int, j: int|
        0 <= i < j < s.len() && #[trigger] s[i].group == #[trigger] s[j].group implies lex_le(
        file_name_of(s[i].path),
        file_name_of(s[j].path),
    ) by {
        assert(entry_le(s[i], s[j]));
        if file_name_of(s[i].path) == file_name_of(s[j].path) {
            lemma_lex_le_refl(file_name_of(s[i].path));
        }
    }
}

} // verus!
