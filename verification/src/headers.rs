//! The header block: one `Name: Value` per line.
//!
//! A line is split at its first colon and both parts are trimmed. A line
//! without a colon is no header and is passed over. Where a name occurs more
//! than once, it keeps the place of its first line and takes the value of its
//! last.

use crate::text::{
    chars_of, find_char, lemma_position, lemma_position_is, lines, position, split_lines, texts,
    trim, trim_range,
};
use vstd::prelude::*;

verus! {

/// A header as a pair of texts: name, then value.
pub type Pair = (Seq<char>, Seq<char>);

/// A request header.
#[derive(Clone, Debug, PartialEq, Eq)]
pub struct Header {
    pub name: String,
    pub value: String,
}

impl View for Header {
    type V = Pair;

    open spec fn view(&self) -> Pair {
        (self.name@, self.value@)
    }
}

/// The views of a sequence of headers.
pub open spec fn pairs(hs: Seq<Header>) -> Seq<Pair> {
    hs.map_values(|h: Header| h@)
}

/// The names of a sequence of headers.
pub open spec fn names(hs: Seq<Pair>) -> Seq<Seq<char>> {
    hs.map_values(|h: Pair| h.0)
}

/// The header that a line holds: what stands before its first colon and what
/// stands after it, each trimmed. A line without a colon holds none.
pub open spec fn header_of_line(line: Seq<char>) -> Option<Pair> {
    let p = position(line, ':');
    if 0 <= p < line.len() {
        Some((trim(line.take(p)), trim(line.skip(p + 1))))
    } else {
        None
    }
}

/// The headers that a sequence of lines holds, line by line.
pub open spec fn header_pairs(ls: Seq<Seq<char>>) -> Seq<Pair> {
    ls.filter_map(|line: Seq<char>| header_of_line(line))
}

/// `hs` with `h` put in: in the place of the first header of that name, or at
/// the end where there is none.
pub open spec fn upsert(hs: Seq<Pair>, h: Pair) -> Seq<Pair> {
    let i = position(names(hs), h.0);
    if 0 <= i < hs.len() {
        hs.update(i, h)
    } else {
        hs.push(h)
    }
}

/// The headers put in one after the other, starting from none.
pub open spec fn collect(hs: Seq<Pair>) -> Seq<Pair>
    decreases hs.len(),
{
    if hs.len() == 0 {
        Seq::empty()
    } else {
        upsert(collect(hs.drop_last()), hs.last())
    }
}

/// The headers of a header block.
pub open spec fn parsed_headers(text: Seq<char>) -> Seq<Pair> {
    collect(header_pairs(lines(text)))
}

/// A line holds a header exactly if it holds a colon.
pub proof fn lemma_header_needs_colon(line: Seq<char>)
    ensures
        header_of_line(line) is Some <==> line.contains(':'),
{
    lemma_position(line, ':');
}

/// A line made of a name without a colon, a colon and a value holds that
/// name and that value, each trimmed.
pub proof fn lemma_header_of_line(name: Seq<char>, value: Seq<char>)
    requires
        !name.contains(':'),
    ensures
        header_of_line(name + seq![':'] + value) == Some((trim(name), trim(value))),
{
    let line = name + seq![':'] + value;
    let p = name.len() as int;
    assert forall|j: int| 0 <= j < p implies line[j] != ':' by {
        assert(line[j] == name[j]);
    }
    lemma_position_is(line, ':', p);
    assert(line.take(p) =~= name);
    assert(line.skip(p + 1) =~= value);
}

/// A line without a colon adds nothing: the lines around it hold the same
/// headers with it and without it.
pub proof fn lemma_line_without_colon_is_passed_over(
    before: Seq<Seq<char>>,
    line: Seq<char>,
    after: Seq<Seq<char>>,
)
    requires
        !line.contains(':'),
    ensures
        header_pairs(before + seq![line] + after) == header_pairs(before + after),
{
    let f = |l: Seq<char>| header_of_line(l);
    lemma_header_needs_colon(line);
    lemma_filter_map_add(before + seq![line], after, f);
    lemma_filter_map_add(before, seq![line], f);
    lemma_filter_map_add(before, after, f);
    Seq::lemma_filter_map_singleton(line, f);
    assert(before.filter_map(f) + Seq::<Pair>::empty() =~= before.filter_map(f));
}

/// Every header of a block stands on one of its lines, and that line holds a
/// colon.
pub proof fn lemma_parsed_header_has_line(text: Seq<char>, h: Pair)
    requires
        parsed_headers(text).contains(h),
    ensures
        exists|line: Seq<char>|
            #![trigger lines(text).contains(line)]
            lines(text).contains(line) && line.contains(':') && header_of_line(line) == Some(h),
{
    let f = |l: Seq<char>| header_of_line(l);
    let found = header_pairs(lines(text));
    lemma_collect(found);
    let k = choose|k: int| 0 <= k < collect(found).len() && collect(found)[k] == h;
    assert(found.contains(collect(found)[k]));
    lines(text).lemma_filter_map_contains(f, h);
    let line = choose|t: Seq<char>| #[trigger] lines(text).contains(t) && f(t) == Some(h);
    lemma_header_needs_colon(line);
}

/// No name occurs twice among the collected headers.
pub proof fn lemma_collect_names_distinct(hs: Seq<Pair>)
    ensures
        names(collect(hs)).no_duplicates(),
{
    lemma_collect(hs);
}

/// The collected headers have the names that were put in, and no others.
pub proof fn lemma_collect_keeps_names(hs: Seq<Pair>, name: Seq<char>)
    ensures
        names(collect(hs)).contains(name) <==> names(hs).contains(name),
{
    lemma_collect(hs);
}

/// The last header of each name is the one that is collected.
pub proof fn lemma_collect_last_wins(hs: Seq<Pair>, i: int)
    requires
        0 <= i < hs.len(),
        forall|j: int| i < j < hs.len() ==> hs[j].0 != hs[i].0,
    ensures
        collect(hs).contains(hs[i]),
{
    lemma_collect(hs);
    let c = collect(hs);
    assert(names(hs)[i] == hs[i].0);
    assert(names(hs).contains(hs[i].0));
    assert(names(c).contains(hs[i].0));
    let k = choose|k: int| 0 <= k < names(c).len() && names(c)[k] == hs[i].0;
    assert(c[k].0 == hs[i].0);
    let j = choose|j: int|
        0 <= j < hs.len() && hs[j] == c[k] && forall|l: int| j < l < hs.len() ==> hs[l].0 != c[k].0;
    assert(j == i);
}

/// The collected headers stand in the order in which their names first
/// occurred.
pub proof fn lemma_collect_order(hs: Seq<Pair>, x: int, y: int)
    requires
        0 <= x < y < collect(hs).len(),
    ensures
        position(names(hs), collect(hs)[x].0) < position(names(hs), collect(hs)[y].0),
{
    lemma_collect(hs);
}

/// Headers whose names are all different are collected as they stand.
pub proof fn lemma_collect_distinct(hs: Seq<Pair>)
    requires
        names(hs).no_duplicates(),
    ensures
        collect(hs) == hs,
    decreases hs.len(),
{
    if hs.len() > 0 {
        let p = hs.drop_last();
        let h = hs.last();
        assert forall|i: int, j: int| 0 <= i < j < p.len() implies names(p)[i] != names(p)[j] by {
            assert(names(p)[i] == names(hs)[i] && names(p)[j] == names(hs)[j]);
        }
        lemma_collect_distinct(p);
        lemma_position(names(p), h.0);
        if names(p).contains(h.0) {
            let i = choose|i: int| 0 <= i < names(p).len() && names(p)[i] == h.0;
            assert(names(hs)[i] == h.0 && names(hs)[hs.len() - 1] == h.0);
        }
        assert(p.push(h) =~= hs);
    }
}

proof fn lemma_filter_map_add<A, B>(a: Seq<A>, b: Seq<A>, f: spec_fn(A) -> Option<B>)
    ensures
        (a + b).filter_map(f) == a.filter_map(f) + b.filter_map(f),
    decreases b.len(),
{
    if b.len() == 0 {
        assert(a + b =~= a);
        assert(a.filter_map(f) + b.filter_map(f) =~= a.filter_map(f));
    } else {
        lemma_filter_map_add(a, b.drop_last(), f);
        assert((a + b).drop_last() =~= a + b.drop_last());
        assert((a + b).last() == b.last());
        match f(b.last()) {
            Some(x) => {
                assert((a.filter_map(f) + b.drop_last().filter_map(f)) + seq![x] =~= a.filter_map(f)
                    + (b.drop_last().filter_map(f) + seq![x]));
            },
            None => {},
        }
    }
}

proof fn lemma_position_push<A>(s: Seq<A>, a: A, c: A)
    ensures
        position(s.push(a), c) == if s.contains(c) {
            position(s, c)
        } else if a == c {
            s.len() as int
        } else {
            s.len() as int + 1
        },
{
    lemma_position(s, c);
    let t = s.push(a);
    let k = if s.contains(c) {
        position(s, c)
    } else if a == c {
        s.len() as int
    } else {
        s.len() as int + 1
    };
    assert forall|j: int| 0 <= j < k implies t[j] != c by {
        if j < s.len() {
            assert(t[j] == s[j]);
        }
    }
    lemma_position_is(t, c, k);
}

proof fn lemma_upsert(c: Seq<Pair>, h: Pair)
    requires
        names(c).no_duplicates(),
    ensures
        names(upsert(c, h)).no_duplicates(),
        names(upsert(c, h)) == if names(c).contains(h.0) {
            names(c)
        } else {
            names(c).push(h.0)
        },
        upsert(c, h).len() == names(upsert(c, h)).len(),
        forall|k: int|
            0 <= k < upsert(c, h).len() ==> #[trigger] upsert(c, h)[k] == if names(upsert(c, h))[k]
                == h.0 {
                h
            } else {
                c[k]
            },
{
    lemma_position(names(c), h.0);
    let i = position(names(c), h.0);
    let u = upsert(c, h);
    if i < c.len() {
        assert(names(u) =~= names(c));
    } else {
        assert(names(u) =~= names(c).push(h.0));
    }
    assert forall|k: int| 0 <= k < u.len() implies #[trigger] u[k] == if names(u)[k] == h.0 {
        h
    } else {
        c[k]
    } by {
        if k < c.len() && k != i {
            assert(names(c)[k] == c[k].0);
            if i < c.len() {
                assert(names(c)[i] == h.0);
            }
        }
    }
}

proof fn lemma_collect(hs: Seq<Pair>)
    ensures
        names(collect(hs)).no_duplicates(),
        collect(hs).len() == names(collect(hs)).len(),
        forall|name: Seq<char>| names(collect(hs)).contains(name) <==> names(hs).contains(name),
        forall|k: int|
            0 <= k < collect(hs).len() ==> exists|j: int|
                0 <= j < hs.len() && hs[j] == #[trigger] collect(hs)[k] && forall|l: int|
                    j < l < hs.len() ==> hs[l].0 != collect(hs)[k].0,
        forall|x: int, y: int|
            0 <= x < y < collect(hs).len() ==> position(names(hs), #[trigger] collect(hs)[x].0)
                < position(names(hs), #[trigger] collect(hs)[y].0),
    decreases hs.len(),
{
    if hs.len() == 0 {
        assert(names(collect(hs)) =~= Seq::<Seq<char>>::empty());
        assert(names(hs) =~= Seq::<Seq<char>>::empty());
    } else {
        let p = hs.drop_last();
        let h = hs.last();
        let c = collect(p);
        let u = collect(hs);
        lemma_collect(p);
        lemma_upsert(c, h);
        assert(names(hs) =~= names(p).push(h.0));
        let np = names(p);
        let nc = names(c);
        let nu = names(u);
        // The names: those of before, and the new one.
        assert forall|name: Seq<char>| nu.contains(name) <==> names(hs).contains(name) by {
            if nu.contains(name) {
                let k = choose|k: int| 0 <= k < nu.len() && nu[k] == name;
                if k < nc.len() && nu[k] == nc[k] {
                    assert(nc.contains(name));
                    assert(np.contains(name));
                    let j = choose|j: int| 0 <= j < np.len() && np[j] == name;
                    assert(names(hs)[j] == name);
                } else {
                    assert(names(hs)[hs.len() - 1] == name);
                }
            }
            if names(hs).contains(name) {
                let j = choose|j: int| 0 <= j < names(hs).len() && names(hs)[j] == name;
                if j < np.len() {
                    assert(np[j] == name);
                    assert(np.contains(name));
                    assert(nc.contains(name));
                    let k = choose|k: int| 0 <= k < nc.len() && nc[k] == name;
                    assert(nu[k] == name);
                } else {
                    if nc.contains(h.0) {
                        let k = choose|k: int| 0 <= k < nc.len() && nc[k] == h.0;
                        assert(nu[k] == name);
                    } else {
                        assert(nu[nc.len() as int] == name);
                    }
                }
            }
        }
        // Each collected header is the last of its name.
        assert forall|k: int| 0 <= k < u.len() implies exists|j: int|
            0 <= j < hs.len() && hs[j] == #[trigger] u[k] && forall|l: int|
                j < l < hs.len() ==> hs[l].0 != u[k].0 by {
            if nu[k] == h.0 {
                assert(u[k] == h);
                assert(hs[hs.len() - 1] == u[k]);
            } else {
                assert(u[k] == c[k]);
                assert(nc[k] == c[k].0);
                let j = choose|j: int|
                    0 <= j < p.len() && p[j] == c[k] && forall|l: int|
                        j < l < p.len() ==> p[l].0 != c[k].0;
                assert(hs[j] == u[k]);
                assert forall|l: int| j < l < hs.len() implies hs[l].0 != u[k].0 by {
                    if l < p.len() {
                        assert(hs[l] == p[l]);
                    }
                }
            }
        }
        // The order is that of first occurrence.
        assert forall|x: int, y: int| 0 <= x < y < u.len() implies position(
            names(hs),
            #[trigger] u[x].0,
        ) < position(names(hs), #[trigger] u[y].0) by {
            assert(nu[x] == u[x].0 && nu[y] == u[y].0);
            lemma_position_push(np, h.0, u[x].0);
            lemma_position_push(np, h.0, u[y].0);
            lemma_position(np, u[x].0);
            lemma_position(np, u[y].0);
            assert(nc[x] == c[x].0);
            assert(nc.contains(nu[x]));
            if y < c.len() {
                assert(nc[y] == c[y].0);
                assert(nc.contains(nu[y]));
            }
        }
    }
}

/// Parses one line of a header block.
pub fn parse_header_line(line: &str) -> (r: Option<Header>)
    ensures
        match r {
            Some(h) => header_of_line(line@) == Some(h@),
            None => header_of_line(line@) is None,
        },
{
    let chars = chars_of(line);
    let n: usize = chars.len();
    let colon = find_char(&chars, 0, n, ':');
    proof {
        assert(chars@.subrange(0, n as int) =~= line@);
    }
    if colon == n {
        return None;
    }
    let (a, b) = trim_range(&chars, 0, colon);
    let (c, d) = trim_range(&chars, colon + 1, n);
    proof {
        assert(chars@.subrange(0, colon as int) =~= line@.take(colon as int));
        assert(chars@.subrange(colon + 1, n as int) =~= line@.skip(colon + 1));
    }
    let name = line.substring_char(a, b).to_owned();
    let value = line.substring_char(c, d).to_owned();
    Some(Header { name, value })
}

/// Puts a header into a list: in the place of the first header of that name,
/// or at the end where there is none.
pub fn put_header(headers: &mut Vec<Header>, header: Header)
    ensures
        pairs(final(headers)@) == upsert(pairs(old(headers)@), header@),
{
    let n: usize = headers.len();
    let mut i: usize = 0;
    while i < n && !(headers[i].name == header.name)
        invariant
            i <= n,
            n == headers.len(),
            headers@ == old(headers)@,
            forall|j: int| 0 <= j < i ==> headers[j].name@ != header.name@,
        decreases n - i,
    {
        i += 1;
    }
    proof {
        let ns = names(pairs(headers@));
        assert forall|j: int| 0 <= j < i implies ns[j] != header.name@ by {
            assert(ns[j] == headers[j].name@);
        }
        lemma_position_is(ns, header.name@, i as int);
    }
    if i < n {
        headers.set(i, header);
    } else {
        headers.push(header);
    }
    proof {
        assert(pairs(headers@) =~= upsert(pairs(old(headers)@), header@));
    }
}

/// Parses a header block.
pub fn parse_headers(text: &str) -> (r: Vec<Header>)
    ensures
        pairs(r@) == parsed_headers(text@),
{
    let ls = split_lines(text);
    let mut out: Vec<Header> = Vec::new();
    let ghost all = texts(ls@);
    proof {
        assert(pairs(out@) =~= Seq::<Pair>::empty());
        assert(all.take(0) =~= Seq::<Seq<char>>::empty());
    }
    for k in 0..ls.len()
        invariant
            all == texts(ls@),
            all == lines(text@),
            pairs(out@) == collect(header_pairs(all.take(k as int))),
    {
        let ghost before = header_pairs(all.take(k as int));
        proof {
            all.lemma_filter_map_take_succ(|line: Seq<char>| header_of_line(line), k as int);
            assert(all[k as int] == ls[k as int]@);
        }
        match parse_header_line(ls[k].as_str()) {
            Some(h) => {
                proof {
                    let after = header_pairs(all.take(k + 1));
                    assert(after =~= before.push(h@));
                    assert(after.drop_last() =~= before);
                }
                put_header(&mut out, h);
            },
            None => {},
        }
    }
    proof {
        assert(all.take(ls.len() as int) =~= all);
    }
    out
}

} // verus!
