use vstd::prelude::*;
use vstd::string::*;

use crate::config::Platform;
use crate::error::Error;
use crate::text::{
    debug_str, debug_text, join_strings, join_text, push_char, push_str, str_chars, str_eq,
    string_from_chars, strings_view,
};

verus! {

broadcast use vstd::string::group_string_axioms;

// Paths follow the platform's rules. Everywhere '/' separates components; on Windows
// '\' does too, and a path may begin with a prefix: a drive (`C:`) or a
// `\\server\share` (which carries its own root). The root is a separator after the
// prefix. A Windows path is absolute when it has both a prefix and a root; elsewhere
// when it has a root. Verbatim (`\\?\`) and device (`\\.\`) paths are read by the
// same rule, as if `?` or `.` were a server.

/// Whether paths follow Windows rules.
pub open spec fn windows(p: Platform) -> bool {
    p == Platform::Windows
}

/// Whether `c` separates path components.
pub open spec fn is_sep(p: Platform, c: char) -> bool {
    c == '/' || (windows(p) && c == '\\')
}

/// The separator a path is written with.
pub open spec fn main_sep(p: Platform) -> char {
    if windows(p) {
        '\\'
    } else {
        '/'
    }
}

/// Whether `c` is an ASCII letter.
pub open spec fn is_ascii_alpha(c: char) -> bool {
    ('a' <= c && c <= 'z') || ('A' <= c && c <= 'Z')
}

/// Whether `s` starts with a drive prefix (`C:`).
pub open spec fn is_drive(p: Platform, s: Seq<char>) -> bool {
    windows(p) && s.len() >= 2 && is_ascii_alpha(s[0]) && s[1] == ':'
}

/// The first separator at or after `i`, or the length when there is none.
pub open spec fn sep_from(p: Platform, s: Seq<char>, i: int) -> int
    decreases s.len() - i,
{
    if i < 0 || i >= s.len() {
        s.len() as int
    } else if is_sep(p, s[i]) {
        i
    } else {
        sep_from(p, s, i + 1)
    }
}

/// Where a `\\server\share` prefix (both parts non-empty) ends, or 0 when there is
/// none.
pub open spec fn unc_end(p: Platform, s: Seq<char>) -> int {
    if windows(p) && s.len() >= 2 && is_sep(p, s[0]) && is_sep(p, s[1]) {
        let a = sep_from(p, s, 2);
        if 2 < a && a < s.len() {
            let b = sep_from(p, s, a + 1);
            if b > a + 1 {
                b
            } else {
                0
            }
        } else {
            0
        }
    } else {
        0
    }
}

/// How long the path's prefix is (0 when it has none).
pub open spec fn prefix_len(p: Platform, s: Seq<char>) -> int {
    if is_drive(p, s) {
        2
    } else {
        unc_end(p, s)
    }
}

/// Whether a separator follows the prefix.
pub open spec fn physical_root(p: Platform, s: Seq<char>) -> bool {
    prefix_len(p, s) < s.len() && is_sep(p, s[prefix_len(p, s)])
}

/// Whether the path has a root: a separator after its prefix, or a prefix that carries
/// one.
pub open spec fn has_root(p: Platform, s: Seq<char>) -> bool {
    physical_root(p, s) || unc_end(p, s) > 0
}

/// The path after its prefix and root.
pub open spec fn body(p: Platform, s: Seq<char>) -> Seq<char> {
    s.skip(
        prefix_len(p, s) + if physical_root(p, s) {
            1int
        } else {
            0int
        },
    )
}

/// Whether a path is absolute.
pub open spec fn is_absolute(p: Platform, s: Seq<char>) -> bool {
    has_root(p, s) && (!windows(p) || prefix_len(p, s) > 0)
}

/// The pieces of `s` between its separators (one more than there are separators).
pub open spec fn segments(p: Platform, s: Seq<char>) -> Seq<Seq<char>>
    decreases s.len(),
{
    if s.len() == 0 {
        seq![Seq::empty()]
    } else {
        let rest = segments(p, s.drop_last());
        if is_sep(p, s.last()) {
            rest.push(Seq::empty())
        } else {
            rest.update(rest.len() - 1, rest.last().push(s.last()))
        }
    }
}

/// Whether a piece names a directory entry (it is neither empty nor ".").
pub open spec fn is_named(seg: Seq<char>) -> bool {
    seg.len() > 0 && seg != seq!['.']
}

/// The named pieces of a path, in order.
pub open spec fn named(segs: Seq<Seq<char>>) -> Seq<Seq<char>>
    decreases segs.len(),
{
    if segs.len() == 0 {
        Seq::empty()
    } else {
        let rest = named(segs.drop_last());
        if is_named(segs.last()) {
            rest.push(segs.last())
        } else {
            rest
        }
    }
}

/// One step of lexical normalisation: ".." drops the last component, if any; any
/// other name is appended.
pub open spec fn norm_step(out: Seq<Seq<char>>, seg: Seq<char>) -> Seq<Seq<char>> {
    if seg == seq!['.', '.'] {
        if out.len() > 0 {
            out.drop_last()
        } else {
            out
        }
    } else {
        out.push(seg)
    }
}

/// The components left after folding `norm_step` over the named pieces.
pub open spec fn norm_parts(parts: Seq<Seq<char>>) -> Seq<Seq<char>>
    decreases parts.len(),
{
    if parts.len() == 0 {
        Seq::empty()
    } else {
        norm_step(norm_parts(parts.drop_last()), parts.last())
    }
}

/// The components of a path after its prefix and root: its named pieces.
pub open spec fn components(p: Platform, s: Seq<char>) -> Seq<Seq<char>> {
    named(segments(p, body(p, s)))
}

/// The lexical normalisation of a path: its prefix as written, its root as one
/// separator, then the components with "." and empty pieces dropped and each ".."
/// removing the component before it (never the root or prefix), joined by the
/// platform's separator.
pub open spec fn normalize_spec(p: Platform, s: Seq<char>) -> Seq<char> {
    s.take(prefix_len(p, s)) + (if has_root(p, s) {
        seq![main_sep(p)]
    } else {
        Seq::empty()
    }) + join_text(norm_parts(components(p, s)), seq![main_sep(p)])
}

/// `rest` joined onto `base`: an absolute `rest` replaces `base`; on Windows a `rest`
/// with a root but no prefix keeps only the prefix of `base`, and one with a prefix
/// but no root replaces `base`; otherwise the platform's separator goes between them,
/// unless `base` is empty, ends with a separator, or is a bare drive.
pub open spec fn join_spec(p: Platform, base: Seq<char>, rest: Seq<char>) -> Seq<char> {
    if is_absolute(p, rest) {
        rest
    } else if windows(p) && has_root(p, rest) {
        base.take(prefix_len(p, base)) + rest
    } else if windows(p) && prefix_len(p, rest) > 0 {
        rest
    } else if base.len() > 0 && !is_sep(p, base.last()) && !(is_drive(p, base) && base.len() == 2) {
        base + seq![main_sep(p)] + rest
    } else {
        base + rest
    }
}

/// Two drive letters name the same drive: they are equal but for ASCII case.
pub open spec fn same_drive(a: char, b: char) -> bool {
    a == b || (a as int) == (b as int) + 32 || (b as int) == (a as int) + 32
}

/// The server of a `\\server\share` prefix.
pub open spec fn unc_server(p: Platform, s: Seq<char>) -> Seq<char> {
    s.subrange(2, sep_from(p, s, 2))
}

/// The share of a `\\server\share` prefix.
pub open spec fn unc_share(p: Platform, s: Seq<char>) -> Seq<char> {
    s.subrange(sep_from(p, s, 2) + 1, unc_end(p, s))
}

/// Whether two paths have the same prefix: none, the same drive, or the same server
/// and share.
pub open spec fn same_prefix(p: Platform, a: Seq<char>, b: Seq<char>) -> bool {
    if is_drive(p, a) {
        is_drive(p, b) && same_drive(a[0], b[0])
    } else if unc_end(p, a) > 0 {
        !is_drive(p, b) && unc_end(p, b) > 0 && unc_server(p, a) == unc_server(p, b)
            && unc_share(p, a) == unc_share(p, b)
    } else {
        prefix_len(p, b) == 0
    }
}

/// Whether `cand` lies at or below `root`: the same prefix, both rooted or neither,
/// and the components of `root` leading those of `cand`.
pub open spec fn within(p: Platform, root: Seq<char>, cand: Seq<char>) -> bool {
    let rc = components(p, root);
    let cc = components(p, cand);
    &&& same_prefix(p, root, cand)
    &&& has_root(p, root) == has_root(p, cand)
    &&& rc.len() <= cc.len()
    &&& cc.take(rc.len() as int) == rc
}

proof fn lemma_segments_nonempty(p: Platform, s: Seq<char>)
    ensures
        segments(p, s).len() >= 1,
    decreases s.len(),
{
    if s.len() > 0 {
        lemma_segments_nonempty(p, s.drop_last());
    }
}

/// Whether `c` separates path components; see `is_sep`.
fn sep(p: Platform, c: char) -> (r: bool)
    ensures
        r == is_sep(p, c),
{
    c == '/' || (matches!(p, Platform::Windows) && c == '\\')
}

/// The first separator at or after `i`; see `sep_from`.
fn find_sep(p: Platform, cs: &Vec<char>, i: usize) -> (r: usize)
    requires
        i <= cs@.len(),
    ensures
        r as int == sep_from(p, cs@, i as int),
        i <= r <= cs@.len(),
{
    let mut j = i;
    while j < cs.len() && !sep(p, cs[j])
        invariant
            i <= j <= cs@.len(),
            sep_from(p, cs@, i as int) == sep_from(p, cs@, j as int),
        decreases cs.len() - j,
    {
        j = j + 1;
    }
    j
}

/// Where the prefix ends, whether a separator follows it, and whether it is a
/// `\\server\share` prefix.
fn split_prefix(p: Platform, cs: &Vec<char>) -> (r: (usize, bool, bool))
    ensures
        r.0 as int == prefix_len(p, cs@),
        r.0 <= cs@.len(),
        r.1 == physical_root(p, cs@),
        r.1 ==> r.0 < cs@.len(),
        r.2 == (unc_end(p, cs@) > 0),
        r.2 ==> !is_drive(p, cs@),
{
    let n = cs.len();
    let win = matches!(p, Platform::Windows);
    let drive = win && n >= 2 && (('a' <= cs[0] && cs[0] <= 'z') || ('A' <= cs[0] && cs[0] <= 'Z'))
        && cs[1] == ':';
    let mut unc: usize = 0;
    if win && n >= 2 && sep(p, cs[0]) && sep(p, cs[1]) {
        let a = find_sep(p, cs, 2);
        if 2 < a && a < n {
            let b = find_sep(p, cs, a + 1);
            if b > a + 1 {
                unc = b;
            }
        }
    }
    proof {
        assert(unc as int == unc_end(p, cs@));
    }
    let pl: usize = if drive {
        2
    } else {
        unc
    };
    let phys = pl < n && sep(p, cs[pl]);
    (pl, phys, unc > 0)
}

/// The named pieces of `cs`, one string each.
fn named_pieces(p: Platform, cs: &Vec<char>) -> (r: Vec<String>)
    ensures
        strings_view(r@) == named(segments(p, cs@)),
{
    let n = cs.len();
    let mut out: Vec<String> = Vec::new();
    let mut cur: Vec<char> = Vec::new();
    let mut i: usize = 0;
    while i < n
        invariant
            n == cs@.len(),
            i <= n,
            segments(p, cs@.take(i as int)).len() >= 1,
            cur@ == segments(p, cs@.take(i as int)).last(),
            strings_view(out@) == named(segments(p, cs@.take(i as int)).drop_last()),
        decreases n - i,
    {
        let ghost pre = cs@.take(i as int);
        let ghost segs = segments(p, pre);
        proof {
            let nxt = cs@.take(i + 1);
            assert(nxt.drop_last() =~= pre);
            lemma_segments_nonempty(p, pre);
        }
        let c = cs[i];
        if sep(p, c) {
            let ghost done = segs.drop_last();
            let ghost last = segs.last();
            let seg = string_from_chars(&cur);
            let dot = str_eq(seg.as_str(), ".");
            proof {
                reveal_strlit(".");
                assert("."@ =~= seq!['.']);
                let nsegs = segments(p, cs@.take(i + 1));
                assert(nsegs == segs.push(Seq::empty()));
                assert(nsegs.drop_last() =~= segs);
                assert(segs =~= done.push(last));
            }
            if cur.len() > 0 && !dot {
                out.push(seg);
                proof {
                    assert(strings_view(out@) =~= named(done).push(last));
                }
            }
            cur = Vec::new();
            proof {
                assert(cur@ =~= segments(p, cs@.take(i + 1)).last());
            }
        } else {
            cur.push(c);
            proof {
                let nsegs = segments(p, cs@.take(i + 1));
                assert(nsegs == segs.update(segs.len() - 1, segs.last().push(c)));
                assert(nsegs.drop_last() =~= segs.drop_last());
            }
        }
        i = i + 1;
    }
    proof {
        assert(cs@.take(n as int) =~= cs@);
    }
    let ghost segs = segments(p, cs@);
    let ghost done = segs.drop_last();
    let ghost last = segs.last();
    let seg = string_from_chars(&cur);
    let dot = str_eq(seg.as_str(), ".");
    proof {
        reveal_strlit(".");
        assert("."@ =~= seq!['.']);
        assert(segs =~= done.push(last));
    }
    if cur.len() > 0 && !dot {
        out.push(seg);
        proof {
            assert(strings_view(out@) =~= named(done).push(last));
        }
    }
    out
}

/// The characters of `cs` from `start` on.
fn chars_from(cs: &Vec<char>, start: usize) -> (r: Vec<char>)
    requires
        start <= cs@.len(),
    ensures
        r@ == cs@.skip(start as int),
{
    let mut out: Vec<char> = Vec::new();
    let mut i = start;
    while i < cs.len()
        invariant
            start <= i <= cs@.len(),
            out@ == cs@.subrange(start as int, i as int),
        decreases cs.len() - i,
    {
        out.push(cs[i]);
        i = i + 1;
    }
    proof {
        assert(out@ =~= cs@.skip(start as int));
    }
    out
}

/// The characters of `cs` before `end`.
fn chars_to(cs: &Vec<char>, end: usize) -> (r: Vec<char>)
    requires
        end <= cs@.len(),
    ensures
        r@ == cs@.take(end as int),
{
    let mut out: Vec<char> = Vec::new();
    let mut i: usize = 0;
    while i < end
        invariant
            i <= end <= cs@.len(),
            out@ == cs@.take(i as int),
        decreases end - i,
    {
        out.push(cs[i]);
        i = i + 1;
        proof {
            assert(out@ =~= cs@.take(i as int));
        }
    }
    out
}

/// The components of a path after its prefix and root, one string each.
pub fn path_components(p: Platform, path: &str) -> (r: Vec<String>)
    ensures
        strings_view(r@) == components(p, path@),
{
    let cs = str_chars(path);
    let (pl, phys, _) = split_prefix(p, &cs);
    let n = cs.len();
    let start = if phys && pl < n {
        pl + 1
    } else {
        pl
    };
    let rest = chars_from(&cs, start);
    named_pieces(p, &rest)
}

/// `norm_parts` of the pieces given.
fn fold_parts(parts: &Vec<String>) -> (r: Vec<String>)
    ensures
        strings_view(r@) == norm_parts(strings_view(parts@)),
{
    let mut out: Vec<String> = Vec::new();
    let mut i: usize = 0;
    while i < parts.len()
        invariant
            i <= parts@.len(),
            strings_view(out@) == norm_parts(strings_view(parts@).take(i as int)),
        decreases parts.len() - i,
    {
        let ghost pre = strings_view(parts@).take(i as int);
        let seg = &parts[i];
        let dotdot = str_eq(seg.as_str(), "..");
        proof {
            reveal_strlit("..");
            assert(".."@ =~= seq!['.', '.']);
            let nxt = strings_view(parts@).take(i + 1);
            assert(nxt.drop_last() =~= pre);
            assert(nxt.last() == seg@);
        }
        if dotdot {
            if out.len() > 0 {
                out.pop();
                proof {
                    assert(strings_view(out@) =~= norm_parts(pre).drop_last());
                }
            }
        } else {
            out.push(seg.clone());
            proof {
                assert(strings_view(out@) =~= norm_parts(pre).push(seg@));
            }
        }
        i = i + 1;
    }
    proof {
        assert(strings_view(parts@).take(parts@.len() as int) =~= strings_view(parts@));
    }
    out
}

/// The platform's separator, as text.
fn sep_text(p: Platform) -> (r: &'static str)
    ensures
        r@ == seq![main_sep(p)],
{
    proof {
        reveal_strlit("\\");
        reveal_strlit("/");
    }
    if matches!(p, Platform::Windows) {
        "\\"
    } else {
        "/"
    }
}

/// Normalises a path lexically; see `normalize_spec`.
pub fn normalize_path(p: Platform, path: &str) -> (r: String)
    ensures
        r@ == normalize_spec(p, path@),
{
    let cs = str_chars(path);
    let (pl, phys, unc) = split_prefix(p, &cs);
    let n = cs.len();
    let start = if phys && pl < n {
        pl + 1
    } else {
        pl
    };
    let rest = chars_from(&cs, start);
    let comps = named_pieces(p, &rest);
    let folded = fold_parts(&comps);
    let pre = chars_to(&cs, pl);
    let mut r = string_from_chars(&pre);
    let sep = sep_text(p);
    if phys || unc {
        push_str(&mut r, sep);
    }
    let body = join_strings(&folded, sep);
    r.append(body.as_str());
    proof {
        assert(r@ =~= normalize_spec(p, path@));
    }
    r
}

/// Joins `rest` onto `base`; see `join_spec`.
pub fn join_path(p: Platform, base: &str, rest: &str) -> (r: String)
    ensures
        r@ == join_spec(p, base@, rest@),
{
    let win = matches!(p, Platform::Windows);
    let rc = str_chars(rest);
    let (rpl, rphys, runc) = split_prefix(p, &rc);
    let rroot = rphys || runc;
    if rroot && (!win || rpl > 0) {
        return String::from_str(rest);
    }
    let bc = str_chars(base);
    let (bpl, _, _) = split_prefix(p, &bc);
    if win && rroot {
        let pre = chars_to(&bc, bpl);
        let mut r = string_from_chars(&pre);
        push_str(&mut r, rest);
        return r;
    }
    if win && rpl > 0 {
        return String::from_str(rest);
    }
    let bare_drive = win && bc.len() == 2 && (('a' <= bc[0] && bc[0] <= 'z') || ('A' <= bc[0]
        && bc[0] <= 'Z')) && bc[1] == ':';
    let mut r = String::from_str(base);
    if bc.len() > 0 && !sep(p, bc[bc.len() - 1]) && !bare_drive {
        push_str(&mut r, sep_text(p));
    }
    push_str(&mut r, rest);
    r
}

/// `s` without its leading '\' and '/' characters.
pub open spec fn trim_leading_separators(s: Seq<char>) -> Seq<char>
    decreases s.len(),
{
    if s.len() > 0 && (s[0] == '/' || s[0] == '\\') {
        trim_leading_separators(s.drop_first())
    } else {
        s
    }
}

/// What `~`, `~/...` and `%LOCALAPPDATA%...` expand to, given the home directory and
/// the local application data directory when they are known; other paths stay.
pub open spec fn expand_tilde_spec(
    p: Platform,
    path: Seq<char>,
    home: Option<Seq<char>>,
    local_app_data: Option<Seq<char>>,
) -> Seq<char> {
    if path.len() >= 2 && path[0] == '~' && path[1] == '/' && home is Some {
        join_spec(p, home->0, path.skip(2))
    } else if path == seq!['~'] && home is Some {
        home->0
    } else if path.len() >= 14 && path.take(14) == "%LOCALAPPDATA%"@ && local_app_data is Some {
        join_spec(p, local_app_data->0, trim_leading_separators(path.skip(14)))
    } else {
        path
    }
}

/// Expands a leading `~` (from `home`) or `%LOCALAPPDATA%` (from `local_app_data`);
/// see `expand_tilde_spec`.
pub fn expand_tilde(p: Platform, path: &str, home: Option<&str>, local_app_data: Option<&str>) -> (r: String)
    ensures
        r@ == expand_tilde_spec(
            p,
            path@,
            match home {
                Some(h) => Some(h@),
                None => None,
            },
            match local_app_data {
                Some(d) => Some(d@),
                None => None,
            },
        ),
{
    let cs = str_chars(path);
    let n = cs.len();
    if n >= 2 && cs[0] == '~' && cs[1] == '/' {
        if let Some(h) = home {
            let mut restv: Vec<char> = Vec::new();
            let mut i: usize = 2;
            while i < n
                invariant
                    2 <= i <= n,
                    n == cs@.len(),
                    restv@ == cs@.subrange(2, i as int),
                decreases n - i,
            {
                restv.push(cs[i]);
                i = i + 1;
            }
            let rest = string_from_chars(&restv);
            proof {
                assert(restv@ =~= path@.skip(2));
            }
            return join_path(p, h, rest.as_str());
        }
    }
    if n == 1 && cs[0] == '~' {
        if let Some(h) = home {
            proof {
                assert(path@ =~= seq!['~']);
            }
            return String::from_str(h);
        }
    }
    proof {
        if n >= 2 && cs@[0] == '~' && cs@[1] == '/' {
            assert(home is None);
        }
        if path@ == seq!['~'] {
            assert(n == 1);
        }
    }
    let lad = "%LOCALAPPDATA%";
    let lc = str_chars(lad);
    proof {
        reveal_strlit("%LOCALAPPDATA%");
    }
    if n >= 14 {
        if let Some(d) = local_app_data {
            let mut same = true;
            let mut k: usize = 0;
            proof {
                assert(cs@.take(0) =~= lad@.take(0));
            }
            while k < 14
                invariant
                    k <= 14,
                    n >= 14,
                    lc@ == lad@,
                    lad@.len() == 14,
                    n == cs@.len(),
                    same == (cs@.take(k as int) == lad@.take(k as int)),
                decreases 14 - k,
            {
                proof {
                    assert(cs@.take(k + 1) == cs@.take(k as int).push(cs@[k as int]));
                    assert(lad@.take(k + 1) == lad@.take(k as int).push(lad@[k as int]));
                    if cs@.take(k + 1) == lad@.take(k + 1) {
                        assert(cs@.take(k + 1)[k as int] == lad@.take(k + 1)[k as int]);
                        assert(cs@.take(k as int) =~= cs@.take(k + 1).drop_last());
                        assert(lad@.take(k as int) =~= lad@.take(k + 1).drop_last());
                    }
                }
                if cs[k] != lc[k] {
                    same = false;
                }
                k = k + 1;
            }
            proof {
                assert(lad@.take(14) =~= lad@);
            }
            if same {
                let mut i: usize = 14;
                while i < n && (cs[i] == '/' || cs[i] == '\\')
                    invariant
                        14 <= i <= n,
                        n == cs@.len(),
                        trim_leading_separators(cs@.skip(14)) == trim_leading_separators(
                            cs@.skip(i as int),
                        ),
                    decreases n - i,
                {
                    proof {
                        assert(cs@.skip(i as int).drop_first() =~= cs@.skip(i + 1));
                    }
                    i = i + 1;
                }
                let mut restv: Vec<char> = Vec::new();
                let start = i;
                while i < n
                    invariant
                        start <= i <= n,
                        n == cs@.len(),
                        restv@ == cs@.subrange(start as int, i as int),
                    decreases n - i,
                {
                    restv.push(cs[i]);
                    i = i + 1;
                }
                proof {
                    assert(restv@ =~= cs@.skip(start as int));
                    assert(trim_leading_separators(cs@.skip(start as int)) == cs@.skip(
                        start as int,
                    ));
                    assert(path@.take(14) == lad@);
                }
                let rest = string_from_chars(&restv);
                return join_path(p, d, rest.as_str());
            }
        }
    }
    String::from_str(path)
}

/// Whether the same characters stand in `a` from `a0` and in `b` from `b0` up to `a1`
/// and `b1`.
fn same_span(a: &Vec<char>, a0: usize, a1: usize, b: &Vec<char>, b0: usize, b1: usize) -> (r: bool)
    requires
        a0 <= a1 <= a@.len(),
        b0 <= b1 <= b@.len(),
    ensures
        r == (a@.subrange(a0 as int, a1 as int) == b@.subrange(b0 as int, b1 as int)),
{
    if a1 - a0 != b1 - b0 {
        proof {
            assert(a@.subrange(a0 as int, a1 as int).len() != b@.subrange(b0 as int, b1 as int).len());
        }
        return false;
    }
    let mut k: usize = 0;
    while k < a1 - a0
        invariant
            a0 <= a1 <= a@.len(),
            b0 <= b1 <= b@.len(),
            a1 - a0 == b1 - b0,
            k <= a1 - a0,
            a@.subrange(a0 as int, a0 + k) == b@.subrange(b0 as int, b0 + k),
        decreases a1 - a0 - k,
    {
        proof {
            assert(a@.subrange(a0 as int, a0 + k + 1) =~= a@.subrange(a0 as int, a0 + k).push(a@[a0 + k]));
            assert(b@.subrange(b0 as int, b0 + k + 1) =~= b@.subrange(b0 as int, b0 + k).push(b@[b0 + k]));
        }
        if a[a0 + k] != b[b0 + k] {
            proof {
                assert(a@.subrange(a0 as int, a1 as int)[k as int] != b@.subrange(b0 as int, b1 as int)[k as int]);
            }
            return false;
        }
        k = k + 1;
    }
    proof {
        assert(a@.subrange(a0 as int, a1 as int) =~= b@.subrange(b0 as int, b1 as int));
    }
    true
}

/// Whether `cand` lies at or below `root`; see `within`.
pub fn is_within(p: Platform, root: &str, cand: &str) -> (r: bool)
    ensures
        r == within(p, root@, cand@),
{
    let ra = str_chars(root);
    let ca = str_chars(cand);
    let (rpl, rphys, runc) = split_prefix(p, &ra);
    let (cpl, cphys, cunc) = split_prefix(p, &ca);
    let same = if rpl == 2 && !runc {
        cpl == 2 && !cunc && (ra[0] == ca[0] || (ra[0] as u32) == (ca[0] as u32) + 32 || (ca[0]
            as u32) == (ra[0] as u32) + 32)
    } else if runc {
        if cunc {
            let ra_a = find_sep(p, &ra, 2);
            let ca_a = find_sep(p, &ca, 2);
            proof {
                assert(2 < ra_a < rpl);
                assert(2 < ca_a < cpl);
            }
            same_span(&ra, 2, ra_a, &ca, 2, ca_a) && same_span(&ra, ra_a + 1, rpl, &ca, ca_a + 1, cpl)
        } else {
            false
        }
    } else {
        cpl == 0
    };
    proof {
        if rpl == 2 && !runc {
            assert(is_drive(p, root@));
        } else {
            assert(!is_drive(p, root@));
        }
        if cpl == 2 && !cunc {
            assert(is_drive(p, cand@));
        } else {
            assert(!is_drive(p, cand@));
        }
        assert(same == same_prefix(p, root@, cand@));
    }
    if !same || (rphys || runc) != (cphys || cunc) {
        return false;
    }
    let rc = path_components(p, root);
    let cc = path_components(p, cand);
    if rc.len() > cc.len() {
        return false;
    }
    let mut i: usize = 0;
    while i < rc.len()
        invariant
            i <= rc@.len(),
            rc@.len() <= cc@.len(),
            strings_view(rc@) == components(p, root@),
            strings_view(cc@) == components(p, cand@),
            forall|k: int| 0 <= k < i ==> (#[trigger] rc@[k])@ == cc@[k]@,
        decreases rc.len() - i,
    {
        if !str_eq(rc[i].as_str(), cc[i].as_str()) {
            proof {
                assert(components(p, cand@).take(rc@.len() as int)[i as int] == cc@[i as int]@);
                assert(components(p, root@)[i as int] == rc@[i as int]@);
            }
            return false;
        }
        i = i + 1;
    }
    proof {
        assert(components(p, cand@).take(rc@.len() as int) =~= components(p, root@)) by {
            assert forall|k: int| 0 <= k < rc@.len() implies components(p, cand@).take(
                rc@.len() as int,
            )[k] == components(p, root@)[k] by {
                assert(strings_view(cc@)[k] == cc@[k]@);
                assert(strings_view(rc@)[k] == rc@[k]@);
            }
        }
    }
    true
}

/// The message for a task file outside the job directory.
pub open spec fn outside_job_dir_text(raw: Seq<char>, root: Seq<char>) -> Seq<char> {
    "Task file "@ + debug_text(raw) + " resolves outside the configured ARKD_JOB_DIR ("@ + root
        + "). Move the file into that directory or unset ARKD_JOB_DIR to allow arbitrary paths."@
}

/// A canonical path when the file system gave one, else the lexical normalisation.
pub open spec fn canonical_or_normal(p: Platform, canon: Option<String>, path: Seq<char>) -> Seq<char> {
    match canon {
        Some(c) => c@,
        None => normalize_spec(p, path),
    }
}

/// What resolving a task file against the job directory answers, once the file system
/// has canonicalised (or failed to canonicalise) the directory and the joined path.
pub open spec fn resolved_job_path(
    p: Platform,
    raw: Seq<char>,
    root: Seq<char>,
    candidate: Seq<char>,
) -> Result<Seq<char>, Seq<char>> {
    if within(p, root, candidate) {
        Ok(candidate)
    } else {
        Err(outside_job_dir_text(raw, root))
    }
}

/// What resolving `raw` against the job directory `dir` may answer: for some answers of
/// `canonicalize` on the directory and on the file joined onto it, the file's path when
/// it stays within the directory, else the `Validation` error that says so.
pub open spec fn job_path_resolved<F: Fn(&str) -> Option<String>>(
    p: Platform,
    raw: Seq<char>,
    dir: &str,
    canonicalize: F,
    r: Result<String, Error>,
) -> bool {
    exists|rc: Option<String>, jp: &str, cc: Option<String>|
        {
            &&& canonicalize.ensures((dir,), rc)
            &&& jp@ == join_spec(p, canonical_or_normal(p, rc, dir@), raw)
            &&& canonicalize.ensures((jp,), cc)
            &&& match resolved_job_path(
                p,
                raw,
                canonical_or_normal(p, rc, dir@),
                canonical_or_normal(p, cc, jp@),
            ) {
                Ok(c) => r matches Ok(s) && s@ == c,
                Err(m) => r matches Err(Error::Validation(e)) && e@ == m,
            }
        }
}

/// Resolves a task file named in params. Without a job directory the name is used as
/// given. With one (already expanded), the directory and the file joined onto it are
/// canonicalised by `canonicalize` (falling back to lexical normalisation where it
/// gives nothing), and a file outside the directory is refused.
pub fn resolve_job_path<F: Fn(&str) -> Option<String>>(
    p: Platform,
    raw: &str,
    job_dir: Option<&str>,
    canonicalize: &F,
) -> (r: Result<String, Error>)
    requires
        forall|p: &str| canonicalize.requires((p,)),
    ensures
        match job_dir {
            None => r matches Ok(s) && s@ == raw@,
            Some(dir) => job_path_resolved(p, raw@, dir, *canonicalize, r),
        },
{
    let dir = match job_dir {
        None => {
            return Ok(String::from_str(raw));
        },
        Some(d) => d,
    };
    let rc = canonicalize(dir);
    let root = match &rc {
        Some(c) => c.clone(),
        None => normalize_path(p, dir),
    };
    let joined = join_path(p, root.as_str(), raw);
    let jp = joined.as_str();
    let cc = canonicalize(jp);
    let candidate = match &cc {
        Some(c) => c.clone(),
        None => normalize_path(p, jp),
    };
    let inside = is_within(p, root.as_str(), candidate.as_str());
    proof {
        assert(root@ == canonical_or_normal(p, rc, dir@));
        assert(candidate@ == canonical_or_normal(p, cc, jp@));
        assert(canonicalize.ensures((dir,), rc));
        assert(canonicalize.ensures((jp,), cc));
    }
    if !inside {
        let mut m = String::from_str("Task file ");
        let q = debug_str(raw);
        m.append(q.as_str());
        push_str(&mut m, " resolves outside the configured ARKD_JOB_DIR (");
        m.append(root.as_str());
        push_str(
            &mut m,
            "). Move the file into that directory or unset ARKD_JOB_DIR to allow arbitrary paths.",
        );
        let r = Err(Error::Validation(m));
        proof {
            assert(resolved_job_path(p, raw@, root@, candidate@) == Err::<Seq<char>, Seq<char>>(
                outside_job_dir_text(raw@, root@),
            ));
        }
        return r;
    }
    Ok(candidate)
}

/// A task file that resolves against the job directory lies within it: within the
/// directory as canonicalised when the file was resolved.
pub proof fn resolved_job_paths_stay_inside<F: Fn(&str) -> Option<String>>(
    p: Platform,
    raw: Seq<char>,
    dir: &str,
    canonicalize: F,
    r: Result<String, Error>,
)
    requires
        job_path_resolved(p, raw, dir, canonicalize, r),
        r is Ok,
    ensures
        exists|rc: Option<String>|
            canonicalize.ensures((dir,), rc) && #[trigger] within(p, canonical_or_normal(p, rc, dir@), r->Ok_0@),
{
    let (rc, jp, cc) = choose|rc: Option<String>, jp: &str, cc: Option<String>|
        {
            &&& canonicalize.ensures((dir,), rc)
            &&& jp@ == join_spec(p, canonical_or_normal(p, rc, dir@), raw)
            &&& canonicalize.ensures((jp,), cc)
            &&& match resolved_job_path(
                p,
                raw,
                canonical_or_normal(p, rc, dir@),
                canonical_or_normal(p, cc, jp@),
            ) {
                Ok(c) => r matches Ok(s) && s@ == c,
                Err(m) => r matches Err(Error::Validation(e)) && e@ == m,
            }
        };
    assert(within(p, canonical_or_normal(p, rc, dir@), r->Ok_0@));
}

} // verus!
