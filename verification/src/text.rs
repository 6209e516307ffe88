//! Character-level text model shared by the crontab, unit-file and path logic.
//!
//! Strings are modelled as `Seq<char>`.  The spec functions here describe the
//! behaviour of the handful of `str` operations the library relies on
//! (`lines`, `trim`, `trim_end`, `ends_with`, `contains`, path joining and
//! decimal formatting); the executable functions compute them on `Vec<char>`.
use vstd::prelude::*;

verus! {

broadcast use vstd::string::group_string_axioms;

// ---------------------------------------------------------------------------
// Specifications
// ---------------------------------------------------------------------------

/// Unicode `White_Space`, the set that `char::is_whitespace` tests for.
pub open spec fn is_ws(c: char) -> bool {
    let u = c as u32;
    ||| 0x09 <= u <= 0x0D
    ||| u == 0x20
    ||| u == 0x85
    ||| u == 0xA0
    ||| u == 0x1680
    ||| 0x2000 <= u <= 0x200A
    ||| u == 0x2028
    ||| u == 0x2029
    ||| u == 0x202F
    ||| u == 0x205F
    ||| u == 0x3000
}

/// `str::trim_end`: drop trailing whitespace.
pub open spec fn trim_end(s: Seq<char>) -> Seq<char>
    decreases s.len(),
{
    if s.len() > 0 && is_ws(s.last()) {
        trim_end(s.drop_last())
    } else {
        s
    }
}

/// `str::trim_start`: drop leading whitespace.
pub open spec fn trim_start(s: Seq<char>) -> Seq<char>
    decreases s.len(),
{
    if s.len() > 0 && is_ws(s[0]) {
        trim_start(s.drop_first())
    } else {
        s
    }
}

/// `str::trim`: drop leading and trailing whitespace.
pub open spec fn trim(s: Seq<char>) -> Seq<char> {
    trim_start(trim_end(s))
}

/// `str::split('\n')`: the pieces between newline characters (always at least one).
pub open spec fn split_nl(s: Seq<char>) -> Seq<Seq<char>>
    decreases s.len(),
{
    if s.len() == 0 {
        seq![Seq::<char>::empty()]
    } else {
        let p = split_nl(s.drop_last());
        if s.last() == '\n' {
            p.push(Seq::<char>::empty())
        } else {
            p.update(p.len() - 1, p.last().push(s.last()))
        }
    }
}

/// A line ended by `"\r\n"` loses its carriage return.
pub open spec fn strip_cr(l: Seq<char>) -> Seq<char> {
    if l.len() > 0 && l.last() == '\r' {
        l.drop_last()
    } else {
        l
    }
}

/// `str::lines`: lines end at `'\n'` or `"\r\n"`; the final line ending is optional,
/// and a carriage return that is not followed by a newline stays in the line.
pub open spec fn lines_of(s: Seq<char>) -> Seq<Seq<char>> {
    let p = split_nl(s);
    let ended = p.drop_last().map_values(|l: Seq<char>| strip_cr(l));
    if p.last().len() == 0 {
        ended
    } else {
        ended.push(p.last())
    }
}

/// `lines.join("\n")`.
pub open spec fn join_lines(ls: Seq<Seq<char>>) -> Seq<char>
    decreases ls.len(),
{
    if ls.len() == 0 {
        Seq::<char>::empty()
    } else if ls.len() == 1 {
        ls[0]
    } else {
        join_lines(ls.drop_last()) + seq!['\n'] + ls.last()
    }
}

/// `s` holds `needle` as a contiguous piece.
pub open spec fn contains(s: Seq<char>, needle: Seq<char>) -> bool {
    exists|i: int| 0 <= i && i + needle.len() <= s.len() && #[trigger] s.subrange(i, i + needle.len()) == needle
}

/// `s` ends with `suffix`.
pub open spec fn ends_with(s: Seq<char>, suffix: Seq<char>) -> bool {
    suffix.len() <= s.len() && s.subrange(s.len() - suffix.len(), s.len() as int) == suffix
}

/// The decimal digit for `d < 10`.
pub open spec fn digit_char(d: nat) -> char {
    if d == 0 {
        '0'
    } else if d == 1 {
        '1'
    } else if d == 2 {
        '2'
    } else if d == 3 {
        '3'
    } else if d == 4 {
        '4'
    } else if d == 5 {
        '5'
    } else if d == 6 {
        '6'
    } else if d == 7 {
        '7'
    } else if d == 8 {
        '8'
    } else {
        '9'
    }
}

/// The decimal representation of `n`, as `n.to_string()` writes it.
pub open spec fn decimal(n: nat) -> Seq<char>
    decreases n,
{
    if n < 10 {
        seq![digit_char(n)]
    } else {
        decimal(n / 10).push(digit_char(n % 10))
    }
}

/// `PathBuf::join` on Unix: an absolute component replaces the base, an empty base
/// yields the component, and a separator is inserted only where the base lacks one.
pub open spec fn path_join(base: Seq<char>, comp: Seq<char>) -> Seq<char> {
    if comp.len() > 0 && comp[0] == '/' {
        comp
    } else if base.len() == 0 {
        comp
    } else if base.last() == '/' {
        base + comp
    } else {
        base + seq!['/'] + comp
    }
}

// ---------------------------------------------------------------------------
// Lemmas
// ---------------------------------------------------------------------------

pub proof fn lemma_split_nl_nonempty(s: Seq<char>)
    ensures
        split_nl(s).len() >= 1,
    decreases s.len(),
{
    if s.len() > 0 {
        lemma_split_nl_nonempty(s.drop_last());
    }
}

/// No piece of a split holds a newline.
pub proof fn lemma_split_nl_pieces(s: Seq<char>)
    ensures
        forall|k: int, j: int|
            0 <= k < split_nl(s).len() && 0 <= j < split_nl(s)[k].len() ==> split_nl(s)[k][j]
                != '\n',
    decreases s.len(),
{
    if s.len() > 0 {
        lemma_split_nl_pieces(s.drop_last());
        lemma_split_nl_nonempty(s.drop_last());
    }
}

/// Splitting text that ends with a given character sequence free of newlines
/// extends the last piece.
pub proof fn lemma_split_nl_append_plain(a: Seq<char>, b: Seq<char>)
    requires
        forall|j: int| 0 <= j < b.len() ==> b[j] != '\n',
    ensures
        split_nl(a + b).len() == split_nl(a).len(),
        split_nl(a + b) == split_nl(a).update(split_nl(a).len() - 1, split_nl(a).last() + b),
    decreases b.len(),
{
    lemma_split_nl_nonempty(a);
    if b.len() == 0 {
        assert(a + b =~= a);
        assert(split_nl(a).last() + b =~= split_nl(a).last());
        assert(split_nl(a).update(split_nl(a).len() - 1, split_nl(a).last()) =~= split_nl(a));
    } else {
        let b0 = b.drop_last();
        lemma_split_nl_append_plain(a, b0);
        assert((a + b).drop_last() =~= a + b0);
        assert((a + b).last() == b.last());
        let p = split_nl(a + b0);
        lemma_split_nl_nonempty(a + b0);
        assert(p.last() == split_nl(a).last() + b0);
        assert(p.last().push(b.last()) =~= split_nl(a).last() + b);
        assert(p.update(p.len() - 1, p.last().push(b.last())) =~= split_nl(a).update(
            split_nl(a).len() - 1,
            split_nl(a).last() + b,
        ));
    }
}

/// A newline between two texts separates their pieces.
pub proof fn lemma_split_nl_concat(a: Seq<char>, b: Seq<char>)
    ensures
        split_nl(a + seq!['\n'] + b) == split_nl(a) + split_nl(b),
    decreases b.len(),
{
    lemma_split_nl_nonempty(a);
    lemma_split_nl_nonempty(b);
    if b.len() == 0 {
        assert((a + seq!['\n'] + b).drop_last() =~= a);
        assert(split_nl(a).push(Seq::<char>::empty()) =~= split_nl(a) + split_nl(b));
    } else {
        let b0 = b.drop_last();
        lemma_split_nl_concat(a, b0);
        assert((a + seq!['\n'] + b).drop_last() =~= a + seq!['\n'] + b0);
        assert((a + seq!['\n'] + b).last() == b.last());
        assert(b.drop_last() =~= b0);
        lemma_split_nl_nonempty(b0);
        let q = split_nl(b0);
        if b.last() == '\n' {
            assert((split_nl(a) + q).push(Seq::<char>::empty()) =~= split_nl(a) + q.push(
                Seq::<char>::empty(),
            ));
        } else {
            let pa = split_nl(a);
            let pq = pa + q;
            assert(pq.last() == q.last());
            assert(pq.update(pq.len() - 1, pq.last().push(b.last())) =~= pa + q.update(
                q.len() - 1,
                q.last().push(b.last()),
            ));
        }
    }
}

/// Splitting text that holds no newline gives the text itself.
pub proof fn lemma_split_nl_plain(b: Seq<char>)
    requires
        forall|j: int| 0 <= j < b.len() ==> b[j] != '\n',
    ensures
        split_nl(b) == seq![b],
{
    lemma_split_nl_append_plain(Seq::<char>::empty(), b);
    assert(Seq::<char>::empty() + b =~= b);
    assert(seq![Seq::<char>::empty()].update(0, Seq::<char>::empty() + b) =~= seq![b]);
}

/// The lines of a text that ends with `"\n"` are those of the text without it,
/// as long as that text does not itself end a line with a carriage return.
pub proof fn lemma_lines_concat(a: Seq<char>, b: Seq<char>)
    requires
        a.len() > 0,
        a.last() != '\r',
        a.last() != '\n',
    ensures
        lines_of(a + seq!['\n'] + b) == lines_of(a) + lines_of(b),
{
    lemma_split_nl_concat(a, b);
    lemma_split_nl_nonempty(a);
    lemma_split_nl_nonempty(b);
    let pa = split_nl(a);
    let pb = split_nl(b);
    let p = pa + pb;
    // the last piece of `a` is non-empty and does not end with a carriage return
    assert(pa.last().len() > 0 && pa.last().last() != '\r') by {
        lemma_split_nl_last_piece(a);
    }
    let f = |l: Seq<char>| strip_cr(l);
    assert(strip_cr(pa.last()) == pa.last());
    assert(p.drop_last() =~= pa + pb.drop_last());
    assert(pa.drop_last().map_values(f).push(pa.last()) =~= pa.map_values(f));
    assert((pa + pb.drop_last()).map_values(f) =~= pa.map_values(f) + pb.drop_last().map_values(f));
    assert(p.last() == pb.last());
    if pb.last().len() == 0 {
        assert(lines_of(a + seq!['\n'] + b) =~= lines_of(a) + lines_of(b));
    } else {
        assert(lines_of(a + seq!['\n'] + b) =~= lines_of(a) + lines_of(b));
    }
}

/// The last piece of a split ends with the last character of the text, unless
/// that character is a newline.
pub proof fn lemma_split_nl_last_piece(a: Seq<char>)
    requires
        a.len() > 0,
        a.last() != '\n',
    ensures
        split_nl(a).last().len() > 0,
        split_nl(a).last().last() == a.last(),
{
    lemma_split_nl_nonempty(a.drop_last());
}

/// The lines of a text without newlines: none if it is empty, itself otherwise.
pub proof fn lemma_lines_plain(b: Seq<char>)
    requires
        forall|j: int| 0 <= j < b.len() ==> b[j] != '\n',
    ensures
        lines_of(b) == (if b.len() == 0 {
            Seq::<Seq<char>>::empty()
        } else {
            seq![b]
        }),
{
    lemma_split_nl_plain(b);
    assert(split_nl(b).drop_last() =~= Seq::<Seq<char>>::empty());
    assert(split_nl(b).drop_last().map_values(|l: Seq<char>| strip_cr(l)) =~= Seq::<
        Seq<char>,
    >::empty());
    if b.len() != 0 {
        assert(Seq::<Seq<char>>::empty().push(b) =~= seq![b]);
    }
}

/// Joining one more line.
pub proof fn lemma_join_lines_push(ls: Seq<Seq<char>>, l: Seq<char>)
    ensures
        join_lines(ls.push(l)) == (if ls.len() == 0 {
            l
        } else {
            join_lines(ls) + seq!['\n'] + l
        }),
{
    assert(ls.push(l).drop_last() =~= ls);
}

/// Joining two blocks of lines.
pub proof fn lemma_join_lines_concat(a: Seq<Seq<char>>, b: Seq<Seq<char>>)
    requires
        a.len() > 0,
        b.len() > 0,
    ensures
        join_lines(a + b) == join_lines(a) + seq!['\n'] + join_lines(b),
    decreases b.len(),
{
    if b.len() == 1 {
        assert(a + b =~= a.push(b[0]));
        lemma_join_lines_push(a, b[0]);
    } else {
        let b0 = b.drop_last();
        lemma_join_lines_concat(a, b0);
        assert(a + b =~= (a + b0).push(b.last()));
        lemma_join_lines_push(a + b0, b.last());
        lemma_join_lines_push(b0, b.last());
        assert(b0.push(b.last()) =~= b);
    }
}

/// Trailing whitespace disappears under `trim_end`.
pub proof fn lemma_trim_end_append_ws(s: Seq<char>, w: Seq<char>)
    requires
        forall|j: int| 0 <= j < w.len() ==> is_ws(w[j]),
    ensures
        trim_end(s + w) == trim_end(s),
    decreases w.len(),
{
    if w.len() == 0 {
        assert(s + w =~= s);
    } else {
        assert((s + w).drop_last() =~= s + w.drop_last());
        lemma_trim_end_append_ws(s, w.drop_last());
    }
}

pub proof fn lemma_trim_end_idempotent(s: Seq<char>)
    ensures
        trim_end(trim_end(s)) == trim_end(s),
        trim_end(s).len() == 0 || !is_ws(trim_end(s).last()),
    decreases s.len(),
{
    if s.len() > 0 && is_ws(s.last()) {
        lemma_trim_end_idempotent(s.drop_last());
    }
}

/// Text whose first and last characters are not whitespace is its own trim.
pub proof fn lemma_trim_of_solid(s: Seq<char>)
    requires
        s.len() > 0,
        !is_ws(s[0]),
        !is_ws(s.last()),
    ensures
        trim(s) == s,
{
}

/// Text that holds `x` still holds it with more text around it.
pub proof fn lemma_contains_within(a: Seq<char>, b: Seq<char>, c: Seq<char>, x: Seq<char>)
    requires
        contains(b, x),
    ensures
        contains(a + b + c, x),
{
    let i = choose|i: int| 0 <= i && i + x.len() <= b.len() && #[trigger] b.subrange(i, i + x.len()) == x;
    let j = a.len() + i;
    assert((a + b + c).subrange(j, j + x.len()) =~= b.subrange(i, i + x.len()));
}

/// Every text holds itself.
pub proof fn lemma_contains_self(x: Seq<char>)
    ensures
        contains(x, x),
{
    let z: int = 0;
    assert(x.subrange(z, z + x.len()) =~= x);
}

/// The first character of the trim of text that starts with a non-whitespace character.
pub proof fn lemma_trim_first(s: Seq<char>)
    requires
        s.len() > 0,
        !is_ws(s[0]),
    ensures
        trim(s).len() > 0,
        trim(s)[0] == s[0],
    decreases s.len(),
{
    if s.len() > 0 && is_ws(s.last()) {
        assert(s.drop_last()[0] == s[0]);
        assert(s.len() > 1);
        lemma_trim_first(s.drop_last());
    }
}

// ---------------------------------------------------------------------------
// Executable functions
// ---------------------------------------------------------------------------

/// The characters of `s`, in order.
pub fn chars_of(s: &str) -> (v: Vec<char>)
    ensures
        v@ == s@,
{
    let mut it = s.chars();
    let mut v: Vec<char> = Vec::new();
    loop
        invariant
            v@ + vstd::std_specs::iter::IteratorSpec::remaining(&it) == s@,
            vstd::std_specs::iter::IteratorSpec::decrease(&it) is Some,
        decreases vstd::std_specs::iter::IteratorSpec::decrease(&it)->0,
    {
        match it.next() {
            Some(c) => {
                v.push(c);
            },
            None => {
                return v;
            },
        }
    }
}

/// Collects characters into a `String` (`String: FromIterator<char>`).
#[verifier::external_body]
pub(crate) fn string_from_chars(v: &Vec<char>) -> (s: String)
    ensures
        s@ == v@,
{
    v.iter().collect()
}

/// `char::is_whitespace`.
pub fn is_whitespace(c: char) -> (b: bool)
    ensures
        b == is_ws(c),
{
    let u = c as u32;
    (0x09 <= u && u <= 0x0D) || u == 0x20 || u == 0x85 || u == 0xA0 || u == 0x1680 || (0x2000
        <= u && u <= 0x200A) || u == 0x2028 || u == 0x2029 || u == 0x202F || u == 0x205F || u
        == 0x3000
}

/// A copy of `v[lo..hi]`.
pub fn sub_vec(v: &Vec<char>, lo: usize, hi: usize) -> (r: Vec<char>)
    requires
        lo <= hi <= v.len(),
    ensures
        r@ == v@.subrange(lo as int, hi as int),
{
    let mut r: Vec<char> = Vec::new();
    let mut i = lo;
    while i < hi
        invariant
            lo <= i <= hi <= v.len(),
            r@ == v@.subrange(lo as int, i as int),
        decreases hi - i,
    {
        r.push(v[i]);
        i = i + 1;
        assert(r@ =~= v@.subrange(lo as int, i as int));
    }
    r
}

/// `v` with trailing whitespace removed.
pub fn trim_end_chars(v: &Vec<char>) -> (r: Vec<char>)
    ensures
        r@ == trim_end(v@),
{
    let mut e = v.len();
    assert(v@.subrange(0, e as int) =~= v@);
    while e > 0 && is_whitespace(v[e - 1])
        invariant
            e <= v.len(),
            trim_end(v@) == trim_end(v@.subrange(0, e as int)),
        decreases e,
    {
        assert(v@.subrange(0, e as int).drop_last() =~= v@.subrange(0, e - 1));
        e = e - 1;
    }
    sub_vec(v, 0, e)
}

/// `v` with leading and trailing whitespace removed.
pub fn trim_chars(v: &Vec<char>) -> (r: Vec<char>)
    ensures
        r@ == trim(v@),
{
    let mut e = v.len();
    assert(v@.subrange(0, e as int) =~= v@);
    while e > 0 && is_whitespace(v[e - 1])
        invariant
            e <= v.len(),
            trim_end(v@) == trim_end(v@.subrange(0, e as int)),
        decreases e,
    {
        assert(v@.subrange(0, e as int).drop_last() =~= v@.subrange(0, e - 1));
        e = e - 1;
    }
    let mut b: usize = 0;
    assert(v@.subrange(b as int, e as int) =~= v@.subrange(0, e as int));
    while b < e && is_whitespace(v[b])
        invariant
            b <= e <= v.len(),
            trim_end(v@) == v@.subrange(0, e as int),
            trim(v@) == trim_start(v@.subrange(b as int, e as int)),
        decreases e - b,
    {
        assert(v@.subrange(b as int, e as int).drop_first() =~= v@.subrange(b + 1, e as int));
        b = b + 1;
    }
    sub_vec(v, b, e)
}

/// Character-wise equality.
pub fn chars_eq(a: &Vec<char>, b: &Vec<char>) -> (r: bool)
    ensures
        r == (a@ == b@),
{
    if a.len() != b.len() {
        return false;
    }
    let mut i: usize = 0;
    while i < a.len()
        invariant
            a.len() == b.len(),
            i <= a.len(),
            forall|j: int| 0 <= j < i ==> a@[j] == b@[j],
        decreases a.len() - i,
    {
        if a[i] != b[i] {
            return false;
        }
        i = i + 1;
    }
    assert(a@ =~= b@);
    true
}

/// Appends `src` to `dst`.
pub fn push_all(dst: &mut Vec<char>, src: &Vec<char>)
    ensures
        final(dst)@ == old(dst)@ + src@,
{
    let mut i: usize = 0;
    while i < src.len()
        invariant
            i <= src.len(),
            dst@ == old(dst)@ + src@.subrange(0, i as int),
        decreases src.len() - i,
    {
        dst.push(src[i]);
        i = i + 1;
        assert(dst@ =~= old(dst)@ + src@.subrange(0, i as int));
    }
    assert(src@.subrange(0, src.len() as int) =~= src@);
}

/// `str::lines`.
pub fn split_lines(v: &Vec<char>) -> (r: Vec<Vec<char>>)
    ensures
        r.deep_view() == lines_of(v@),
{
    let mut out: Vec<Vec<char>> = Vec::new();
    let mut cur: Vec<char> = Vec::new();
    let mut i: usize = 0;
    assert(v@.take(0) =~= Seq::<char>::empty());
    while i < v.len()
        invariant
            i <= v.len(),
            split_nl(v@.take(i as int)).len() >= 1,
            out.deep_view() == split_nl(v@.take(i as int)).drop_last().map_values(
                |l: Seq<char>| strip_cr(l),
            ),
            cur@ == split_nl(v@.take(i as int)).last(),
        decreases v.len() - i,
    {
        let c = v[i];
        let ghost before = v@.take(i as int);
        assert(v@.take(i + 1).drop_last() =~= before);
        assert(v@.take(i + 1).last() == c);
        proof {
            lemma_split_nl_nonempty(before);
        }
        if c == '\n' {
            let mut line = cur;
            let n = line.len();
            if n > 0 && line[n - 1] == '\r' {
                line.pop();
            }
            assert(line@ == strip_cr(split_nl(before).last()));
            let ghost old_dv = out.deep_view();
            assert(line.deep_view() =~= line@);
            out.push(line);
            assert(out.deep_view() =~= old_dv.push(strip_cr(split_nl(before).last())));
            cur = Vec::new();
            assert(split_nl(v@.take(i + 1)) == split_nl(before).push(Seq::<char>::empty()));
            assert(out.deep_view() =~= split_nl(v@.take(i + 1)).drop_last().map_values(
                |l: Seq<char>| strip_cr(l),
            ));
        } else {
            cur.push(c);
            let ghost p = split_nl(before);
            assert(split_nl(v@.take(i + 1)) == p.update(p.len() - 1, p.last().push(c)));
            assert(split_nl(v@.take(i + 1)).drop_last() =~= p.drop_last());
        }
        i = i + 1;
    }
    assert(v@.take(v.len() as int) =~= v@);
    if cur.len() > 0 {
        let ghost old_dv = out.deep_view();
        assert(cur.deep_view() =~= cur@);
        out.push(cur);
        assert(out.deep_view() =~= old_dv.push(split_nl(v@).last()));
        assert(out.deep_view() =~= lines_of(v@));
    }
    out
}

/// `lines.join("\n")`.
pub fn join_with_newlines(ls: &Vec<Vec<char>>) -> (r: Vec<char>)
    ensures
        r@ == join_lines(ls.deep_view()),
{
    let mut r: Vec<char> = Vec::new();
    let mut i: usize = 0;
    assert(ls.deep_view().take(0) =~= Seq::<Seq<char>>::empty());
    while i < ls.len()
        invariant
            i <= ls.len(),
            r@ == join_lines(ls.deep_view().take(i as int)),
        decreases ls.len() - i,
    {
        proof {
            lemma_join_lines_push(ls.deep_view().take(i as int), ls.deep_view()[i as int]);
        }
        assert(ls.deep_view().take(i + 1) =~= ls.deep_view().take(i as int).push(
            ls.deep_view()[i as int],
        ));
        if i > 0 {
            r.push('\n');
        }
        push_all(&mut r, &ls[i]);
        i = i + 1;
    }
    assert(ls.deep_view().take(ls.len() as int) =~= ls.deep_view());
    r
}

/// Whether `hay` holds `needle` as a contiguous piece.
pub fn contains_chars(hay: &Vec<char>, needle: &Vec<char>) -> (r: bool)
    ensures
        r == contains(hay@, needle@),
{
    if needle.len() > hay.len() {
        return false;
    }
    let n = needle.len();
    let mut i: usize = 0;
    while i <= hay.len() - n
        invariant
            n == needle.len(),
            n <= hay.len(),
            i <= hay.len() - n + 1,
            forall|k: int| 0 <= k < i ==> #[trigger] hay@.subrange(k, k + n) != needle@,
        decreases hay.len() + 1 - i,
    {
        let mut j: usize = 0;
        let mut same = true;
        while j < n
            invariant
                n == needle.len(),
                i + n <= hay.len(),
                j <= n,
                same == (forall|m: int| 0 <= m < j ==> hay@[i + m] == needle@[m]),
            decreases n - j,
        {
            if hay[i + j] != needle[j] {
                same = false;
            }
            j = j + 1;
        }
        if same {
            assert(hay@.subrange(i as int, i + n) =~= needle@);
            return true;
        }
        assert(hay@.subrange(i as int, i + n) != needle@) by {
            let m = choose|m: int| 0 <= m < n && hay@[i + m] != needle@[m];
            assert(hay@.subrange(i as int, i + n)[m] == hay@[i + m]);
        }
        i = i + 1;
    }
    false
}

/// Whether `s` ends with `suffix`.
pub fn ends_with_chars(s: &Vec<char>, suffix: &Vec<char>) -> (r: bool)
    ensures
        r == ends_with(s@, suffix@),
{
    if suffix.len() > s.len() {
        return false;
    }
    let off = s.len() - suffix.len();
    let mut j: usize = 0;
    while j < suffix.len()
        invariant
            off == s.len() - suffix.len(),
            j <= suffix.len(),
            forall|m: int| 0 <= m < j ==> s@[off + m] == suffix@[m],
        decreases suffix.len() - j,
    {
        if s[off + j] != suffix[j] {
            assert(s@.subrange(off as int, s.len() as int)[j as int] != suffix@[j as int]);
            return false;
        }
        j = j + 1;
    }
    assert(s@.subrange(off as int, s.len() as int) =~= suffix@);
    true
}

/// The decimal digit for `d < 10`.
fn digit(d: u64) -> (c: char)
    requires
        d < 10,
    ensures
        c == digit_char(d as nat),
{
    if d == 0 {
        '0'
    } else if d == 1 {
        '1'
    } else if d == 2 {
        '2'
    } else if d == 3 {
        '3'
    } else if d == 4 {
        '4'
    } else if d == 5 {
        '5'
    } else if d == 6 {
        '6'
    } else if d == 7 {
        '7'
    } else if d == 8 {
        '8'
    } else {
        '9'
    }
}

/// Appends the decimal representation of `n` to `out`.
pub fn push_decimal(out: &mut Vec<char>, n: u64)
    ensures
        final(out)@ == old(out)@ + decimal(n as nat),
    decreases n,
{
    if n < 10 {
        out.push(digit(n));
        assert(decimal(n as nat) =~= seq![digit_char(n as nat)]);
    } else {
        push_decimal(out, n / 10);
        out.push(digit(n % 10));
        assert(decimal(n as nat) =~= decimal((n / 10) as nat).push(digit_char((n % 10) as nat)));
    }
}

/// `PathBuf::from(base).join(comp)` on Unix.
pub fn join_path(base: &Vec<char>, comp: &Vec<char>) -> (r: Vec<char>)
    ensures
        r@ == path_join(base@, comp@),
{
    if comp.len() > 0 && comp[0] == '/' {
        sub_vec(comp, 0, comp.len())
    } else if base.len() == 0 {
        sub_vec(comp, 0, comp.len())
    } else {
        let mut r = sub_vec(base, 0, base.len());
        if base[base.len() - 1] != '/' {
            r.push('/');
        }
        push_all(&mut r, comp);
        r
    }
}

/// The lower-case form of a text (`str::to_lowercase`, full Unicode case mapping).
pub uninterp spec fn lowercase(s: Seq<char>) -> Seq<char>;

/// `str::to_lowercase`; its result is named `lowercase`.
#[verifier::external_body]
pub(crate) fn to_lowercase(s: &str) -> (r: String)
    ensures
        r@ == lowercase(s@),
{
    s.to_lowercase()
}

/// Whether a command's error output mentions `pattern`, ignoring case.
pub fn output_mentions(stderr: &str, pattern: &str) -> (r: bool)
    ensures
        r == contains(lowercase(stderr@), lowercase(pattern@)),
{
    let hay = to_lowercase(stderr);
    let needle = to_lowercase(pattern);
    contains_chars(&chars_of(hay.as_str()), &chars_of(needle.as_str()))
}

} // verus!
