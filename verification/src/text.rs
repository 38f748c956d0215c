//! Character-level string utilities over `Seq<char>`.
use vstd::prelude::*;

verus! {

broadcast use vstd::string::group_string_axioms;

/// The characters of a string, as a vector.
pub fn chars_of(s: &str) -> (v: Vec<char>)
    ensures
        v@ == s@,
{
    let mut v: Vec<char> = Vec::new();
    for c in it: s.chars()
        invariant
            it.seq() == s@,
            v@ == it.seq().take(it.index()),
    {
        v.push(c);
    }
    v
}

/// `String::push`: appends one character to the end of a string.
#[verifier::external_body]
fn push_char(s: &mut String, c: char)
    ensures
        final(s)@ == old(s)@.push(c),
{
    s.push(c);
}

/// The string made of the given characters.
pub fn string_of(cs: &Vec<char>) -> (s: String)
    ensures
        s@ == cs@,
{
    let mut s = String::new();
    let mut i: usize = 0;
    while i < cs.len()
        invariant
            i <= cs.len(),
            s@ == cs@.take(i as int),
        decreases cs.len() - i,
    {
        push_char(&mut s, cs[i]);
        proof {
            assert(cs@.take(i + 1) == cs@.take(i as int).push(cs@[i as int]));
        }
        i = i + 1;
    }
    proof {
        assert(cs@.take(cs@.len() as int) == cs@);
    }
    s
}


/// `p` is a prefix of `s`.
pub open spec fn is_prefix(p: Seq<char>, s: Seq<char>) -> bool {
    p.len() <= s.len() && s.take(p.len() as int) == p
}

/// `p` is a suffix of `s`.
pub open spec fn is_suffix(p: Seq<char>, s: Seq<char>) -> bool {
    p.len() <= s.len() && s.skip(s.len() - p.len()) == p
}

/// Every occurrence of `from` in `s` replaced by `to`.
pub open spec fn replace_char(s: Seq<char>, from: char, to: char) -> Seq<char> {
    s.map_values(|c: char| if c == from { to } else { c })
}

/// Whether the string `s` starts with `p`.
pub fn starts_with(s: &String, p: &String) -> (b: bool)
    ensures
        b == is_prefix(p@, s@),
{
    let sv = chars_of(s.as_str());
    let pv = chars_of(p.as_str());
    if pv.len() > sv.len() {
        return false;
    }
    let mut i: usize = 0;
    while i < pv.len()
        invariant
            pv.len() <= sv.len(),
            sv@ == s@,
            pv@ == p@,
            i <= pv.len(),
            forall|j: int| 0 <= j < i ==> sv@[j] == pv@[j],
        decreases pv.len() - i,
    {
        if sv[i] != pv[i] {
            assert(s@.take(p@.len() as int)[i as int] != p@[i as int]);
            return false;
        }
        i = i + 1;
    }
    assert(s@.take(p@.len() as int) =~= p@);
    true
}

/// Whether the string `s` ends with `p`.
pub fn ends_with(s: &String, p: &String) -> (b: bool)
    ensures
        b == is_suffix(p@, s@),
{
    let sv = chars_of(s.as_str());
    let pv = chars_of(p.as_str());
    if pv.len() > sv.len() {
        return false;
    }
    let off = sv.len() - pv.len();
    let mut i: usize = 0;
    while i < pv.len()
        invariant
            pv.len() <= sv.len(),
            off == sv.len() - pv.len(),
            sv@ == s@,
            pv@ == p@,
            i <= pv.len(),
            forall|j: int| 0 <= j < i ==> sv@[off + j] == pv@[j],
        decreases pv.len() - i,
    {
        if sv[off + i] != pv[i] {
            assert(s@.skip(s@.len() - p@.len())[i as int] != p@[i as int]);
            return false;
        }
        i = i + 1;
    }
    assert(s@.skip(s@.len() - p@.len()) =~= p@);
    true
}

/// The string `s` with every `from` replaced by `to`.
pub fn replace_all(s: &String, from: char, to: char) -> (r: String)
    ensures
        r@ == replace_char(s@, from, to),
{
    let sv = chars_of(s.as_str());
    let mut out: Vec<char> = Vec::new();
    let mut i: usize = 0;
    while i < sv.len()
        invariant
            sv@ == s@,
            i <= sv.len(),
            out@ == replace_char(sv@.take(i as int), from, to),
        decreases sv.len() - i,
    {
        let c = sv[i];
        if c == from {
            out.push(to);
        } else {
            out.push(c);
        }
        proof {
            assert(replace_char(sv@.take(i + 1), from, to) =~= replace_char(
                sv@.take(i as int),
                from,
                to,
            ).push(if c == from { to } else { c }));
        }
        i = i + 1;
    }
    proof {
        assert(sv@.take(sv@.len() as int) =~= sv@);
    }
    string_of(&out)
}


/// The part of `s` after its last `/`; all of `s` where it has none.
pub open spec fn last_segment(s: Seq<char>) -> Seq<char>
    decreases s.len(),
{
    if s.len() == 0 {
        s
    } else if s.last() == '/' {
        Seq::empty()
    } else {
        last_segment(s.drop_last()).push(s.last())
    }
}

/// The part of `s` after its last `/`; all of `s` where it has none.
pub fn after_last_slash(s: &String) -> (r: String)
    ensures
        r@ == last_segment(s@),
{
    let sv = chars_of(s.as_str());
    let mut cur: Vec<char> = Vec::new();
    let mut i: usize = 0;
    while i < sv.len()
        invariant
            sv@ == s@,
            i <= sv.len(),
            cur@ == last_segment(sv@.take(i as int)),
        decreases sv.len() - i,
    {
        proof {
            assert(sv@.take(i + 1).drop_last() =~= sv@.take(i as int));
        }
        if sv[i] == '/' {
            cur = Vec::new();
        } else {
            cur.push(sv[i]);
        }
        i = i + 1;
    }
    proof {
        assert(sv@.take(sv@.len() as int) =~= sv@);
    }
    string_of(&cur)
}

/// Lexicographic order on character sequences by code point, which is the
/// order of `String`'s `Ord` (UTF-8 keeps the order of code points).
pub open spec fn lex_le(a: Seq<char>, b: Seq<char>) -> bool
    decreases a.len(),
{
    if a.len() == 0 {
        true
    } else if b.len() == 0 {
        false
    } else if a[0] != b[0] {
        (a[0] as int) < (b[0] as int)
    } else {
        lex_le(a.drop_first(), b.drop_first())
    }
}

/// Any two sequences are ordered one way or the other.
pub proof fn lemma_lex_le_total(a: Seq<char>, b: Seq<char>)
    ensures
        lex_le(a, b) || lex_le(b, a),
    decreases a.len(),
{
    if a.len() > 0 && b.len() > 0 && a[0] == b[0] {
        lemma_lex_le_total(a.drop_first(), b.drop_first());
    }
}

/// The order is transitive.
pub proof fn lemma_lex_le_trans(a: Seq<char>, b: Seq<char>, c: Seq<char>)
    requires
        lex_le(a, b),
        lex_le(b, c),
    ensures
        lex_le(a, c),
    decreases a.len(),
{
    if a.len() > 0 && b.len() > 0 && c.len() > 0 && a[0] == b[0] && b[0] == c[0] {
        lemma_lex_le_trans(a.drop_first(), b.drop_first(), c.drop_first());
    }
}

/// Whether `a` comes before `b` or equals it in the order of strings.
pub fn string_le(a: &String, b: &String) -> (r: bool)
    ensures
        r == lex_le(a@, b@),
{
    let av = chars_of(a.as_str());
    let bv = chars_of(b.as_str());
    let mut i: usize = 0;
    assert(a@.skip(0) =~= a@);
    assert(b@.skip(0) =~= b@);
    while i < av.len()
        invariant
            av@ == a@,
            bv@ == b@,
            i <= av.len(),
            i <= bv.len(),
            lex_le(a@, b@) == lex_le(a@.skip(i as int), b@.skip(i as int)),
        decreases av.len() - i,
    {
        if i == bv.len() {
            return false;
        }
        proof {
            assert(a@.skip(i as int).drop_first() =~= a@.skip(i + 1));
            assert(b@.skip(i as int).drop_first() =~= b@.skip(i + 1));
        }
        if av[i] != bv[i] {
            return av[i] < bv[i];
        }
        i = i + 1;
    }
    true
}

/// The views of a sequence of strings.
pub open spec fn views(v: Seq<String>) -> Seq<Seq<char>> {
    v.map_values(|s: String| s@)
}

/// The sequence is in ascending order.
pub open spec fn sorted(s: Seq<Seq<char>>) -> bool {
    forall|i: int, j: int| 0 <= i < j < s.len() ==> lex_le(#[trigger] s[i], #[trigger] s[j])
}

/// The strings of `v` in ascending order: the same strings, each as often
/// as in `v`.
pub fn sort_strings(v: Vec<String>) -> (r: Vec<String>)
    ensures
        sorted(views(r@)),
        views(r@).to_multiset() == views(v@).to_multiset(),
{
    let mut out: Vec<String> = Vec::new();
    let mut i: usize = 0;
    assert(views(out@) =~= views(v@.take(0)));
    while i < v.len()
        invariant
            i <= v.len(),
            sorted(views(out@)),
            views(out@).to_multiset() == views(v@.take(i as int)).to_multiset(),
        decreases v.len() - i,
    {
        let x = v[i].clone();
        let mut k: usize = 0;
        while k < out.len() && string_le(&out[k], &x)
            invariant
                k <= out.len(),
                forall|j: int| 0 <= j < k ==> lex_le(#[trigger] views(out@)[j], x@),
            decreases out.len() - k,
        {
            k = k + 1;
        }
        proof {
            if k < out.len() {
                assert(!lex_le(views(out@)[k as int], x@));
                lemma_lex_le_total(views(out@)[k as int], x@);
            }
        }
        let ghost old_out = out@;
        out.insert(k, x);
        proof {
            assert(views(out@) =~= views(old_out).insert(k as int, x@));
            assert forall|a: int, b: int| 0 <= a < b < views(out@).len() implies lex_le(
                #[trigger] views(out@)[a],
                #[trigger] views(out@)[b],
            ) by {
                if a < k && b == k {
                } else if a < k && b > k {
                    assert(views(out@)[b] == views(old_out)[b - 1]);
                } else if a == k && b > k {
                    assert(views(out@)[b] == views(old_out)[b - 1]);
                    if b - 1 > k {
                        lemma_lex_le_trans(x@, views(old_out)[k as int], views(old_out)[b - 1]);
                    }
                } else if a > k {
                    assert(views(out@)[a] == views(old_out)[a - 1]);
                    assert(views(out@)[b] == views(old_out)[b - 1]);
                }
            }
            vstd::seq_lib::to_multiset_insert(views(old_out), k as int, x@);
            views(v@.take(i as int)).to_multiset_ensures();
            assert(views(v@.take(i + 1)) =~= views(v@.take(i as int)).push(x@));
        }
        i = i + 1;
    }
    proof {
        assert(v@.take(v@.len() as int) =~= v@);
    }
    out
}


/// The characters of `s` before its first `/` (all of `s` where it has none).
pub open spec fn up_to_slash(s: Seq<char>) -> Seq<char>
    decreases s.len(),
{
    if s.len() == 0 {
        s
    } else if s[0] == '/' {
        Seq::empty()
    } else {
        seq![s[0]] + up_to_slash(s.drop_first())
    }
}

/// The second piece of `s` split at `/`: the characters between its first
/// `/` and the next one (or the end). `None` where `s` holds no `/`.
pub open spec fn second_piece(s: Seq<char>) -> Option<Seq<char>>
    decreases s.len(),
{
    if s.len() == 0 {
        None
    } else if s[0] == '/' {
        Some(up_to_slash(s.drop_first()))
    } else {
        second_piece(s.drop_first())
    }
}

/// Where a lookup by path stands at one node of a tree.
pub enum PathStep {
    /// The path is the node's own path.
    Here,
    /// The path does not start with the node's path.
    Outside,
    /// What follows the node's path holds no `/`.
    NoSeparator,
    /// The piece of the path that names the next child.
    Child(String),
}

/// How a lookup of `path` goes on at a node whose path is `node_path`:
/// found here, not under this node, no separator after the node's path,
/// or on at the child named by the second piece of the rest split at `/`.
pub fn step_toward(node_path: &String, path: &String) -> (r: PathStep)
    ensures
        match r {
            PathStep::Here => path@ == node_path@,
            PathStep::Outside => path@ != node_path@ && !is_prefix(node_path@, path@),
            PathStep::NoSeparator => path@ != node_path@ && is_prefix(node_path@, path@)
                && second_piece(path@.skip(node_path@.len() as int)) is None,
            PathStep::Child(id) => path@ != node_path@ && is_prefix(node_path@, path@)
                && second_piece(path@.skip(node_path@.len() as int)) == Some(id@),
        },
{
    if *path == *node_path {
        return PathStep::Here;
    }
    if !starts_with(path, node_path) {
        return PathStep::Outside;
    }
    let pv = chars_of(path.as_str());
    let nlen = chars_of(node_path.as_str()).len();
    let ghost rest = path@.skip(nlen as int);
    // find the first separator after the node's path
    let mut i: usize = nlen;
    while i < pv.len() && pv[i] != '/'
        invariant
            pv@ == path@,
            nlen <= i <= pv.len(),
            nlen == node_path@.len(),
            second_piece(rest) == second_piece(path@.skip(i as int)),
        decreases pv.len() - i,
    {
        proof {
            assert(path@.skip(i as int).drop_first() =~= path@.skip(i + 1));
        }
        i = i + 1;
    }
    if i == pv.len() {
        assert(path@.skip(i as int).len() == 0);
        return PathStep::NoSeparator;
    }
    proof {
        assert(path@.skip(i as int)[0] == '/');
        assert(path@.skip(i as int).drop_first() =~= path@.skip(i + 1));
    }
    let ghost tail = path@.skip(i + 1);
    let mut j: usize = i + 1;
    let mut id: Vec<char> = Vec::new();
    while j < pv.len() && pv[j] != '/'
        invariant
            pv@ == path@,
            i + 1 <= j <= pv.len(),
            tail == path@.skip(i + 1),
            up_to_slash(tail) == id@ + up_to_slash(path@.skip(j as int)),
        decreases pv.len() - j,
    {
        proof {
            assert(path@.skip(j as int).drop_first() =~= path@.skip(j + 1));
            assert(up_to_slash(path@.skip(j as int)) == seq![pv@[j as int]] + up_to_slash(
                path@.skip(j + 1),
            ));
            assert(id@.push(pv@[j as int]) + up_to_slash(path@.skip(j + 1)) =~= id@ + (seq![
                pv@[j as int],
            ] + up_to_slash(path@.skip(j + 1))));
        }
        id.push(pv[j]);
        j = j + 1;
    }
    proof {
        if j < pv.len() {
            assert(path@.skip(j as int)[0] == '/');
        }
        assert(up_to_slash(path@.skip(j as int)) =~= Seq::<char>::empty());
        assert(id@ + Seq::<char>::empty() =~= id@);
    }
    PathStep::Child(string_of(&id))
}


/// The indices of the paths in `paths` that end with `id`, in order.
pub open spec fn suffix_matches(paths: Seq<Seq<char>>, id: Seq<char>) -> Seq<int>
    decreases paths.len(),
{
    if paths.len() == 0 {
        Seq::empty()
    } else {
        let m = suffix_matches(paths.drop_last(), id);
        if is_suffix(id, paths.last()) {
            m.push(paths.len() - 1)
        } else {
            m
        }
    }
}

/// Every index that `suffix_matches` gives is an index of `paths`.
pub proof fn lemma_suffix_matches_bounded(paths: Seq<Seq<char>>, id: Seq<char>)
    ensures
        forall|i: int|
            0 <= i < suffix_matches(paths, id).len() ==> 0 <= #[trigger] suffix_matches(paths, id)[i]
                < paths.len(),
    decreases paths.len(),
{
    if paths.len() > 0 {
        lemma_suffix_matches_bounded(paths.drop_last(), id);
        let m = suffix_matches(paths.drop_last(), id);
        assert forall|i: int| 0 <= i < suffix_matches(paths, id).len() implies 0
            <= #[trigger] suffix_matches(paths, id)[i] < paths.len() by {
            if i < m.len() {
                assert(suffix_matches(paths, id)[i] == m[i]);
            }
        }
    }
}

/// The character of the decimal digit `d`.
pub open spec fn digit_char(d: nat) -> char {
    if d == 0 {
        '0'
    } else if d == 1 {
        '1'
    } else if d == 2 {
        '2'
    } else if d == 3 {
        '3'
    } else if d == 4 {
        '4'
    } else if d == 5 {
        '5'
    } else if d == 6 {
        '6'
    } else if d == 7 {
        '7'
    } else if d == 8 {
        '8'
    } else {
        '9'
    }
}

/// `n` written in decimal digits, without leading zeros.
pub open spec fn decimal(n: nat) -> Seq<char>
    decreases n,
{
    if n < 10 {
        seq![digit_char(n)]
    } else {
        decimal(n / 10).push(digit_char(n % 10))
    }
}

fn digit(d: usize) -> (c: char)
    requires
        d < 10,
    ensures
        c == digit_char(d as nat),
{
    if d == 0 {
        '0'
    } else if d == 1 {
        '1'
    } else if d == 2 {
        '2'
    } else if d == 3 {
        '3'
    } else if d == 4 {
        '4'
    } else if d == 5 {
        '5'
    } else if d == 6 {
        '6'
    } else if d == 7 {
        '7'
    } else if d == 8 {
        '8'
    } else {
        '9'
    }
}

/// `n` written in decimal digits, as `format!("{}", n)` writes it.
pub fn decimal_string(n: usize) -> (s: String)
    ensures
        s@ == decimal(n as nat),
    decreases n,
{
    if n < 10 {
        let mut s = String::new();
        push_char(&mut s, digit(n));
        s
    } else {
        let mut s = decimal_string(n / 10);
        push_char(&mut s, digit(n % 10));
        s
    }
}

} // verus!
