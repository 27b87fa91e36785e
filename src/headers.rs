use vstd::prelude::*;

verus! {

/// The characters that `str::trim` removes: those with the Unicode
/// `White_Space` property.
pub open spec fn is_white(c: char) -> bool {
    let u = c as u32;
    (0x09 <= u && u <= 0x0d) || u == 0x20 || u == 0x85 || u == 0xa0 || u == 0x1680 || (0x2000
        <= u && u <= 0x200a) || u == 0x2028 || u == 0x2029 || u == 0x202f || u == 0x205f || u
        == 0x3000
}

pub open spec fn trim_start(p: Seq<char>) -> Seq<char>
    decreases p.len(),
{
    if p.len() > 0 && is_white(p[0]) {
        trim_start(p.drop_first())
    } else {
        p
    }
}

pub open spec fn trim_end(p: Seq<char>) -> Seq<char>
    decreases p.len(),
{
    if p.len() > 0 && is_white(p.last()) {
        trim_end(p.drop_last())
    } else {
        p
    }
}

/// `p` without leading and trailing white space.
pub open spec fn trim(p: Seq<char>) -> Seq<char> {
    trim_end(trim_start(p))
}

/// The pieces of `s` between commas, as `str::split(',')` yields them:
/// the empty text gives one empty piece.
pub open spec fn split_commas(s: Seq<char>) -> Seq<Seq<char>>
    decreases s.len(),
{
    if s.len() == 0 {
        seq![Seq::empty()]
    } else {
        let prev = split_commas(s.drop_last());
        if s.last() == ',' {
            prev.push(Seq::empty())
        } else {
            prev.update(prev.len() - 1, prev.last().push(s.last()))
        }
    }
}

/// `k` is the position of the first `=` in `p`.
pub open spec fn first_eq_at(p: Seq<char>, k: int) -> bool {
    0 <= k < p.len() && p[k] == '=' && forall|j: int| 0 <= j < k ==> p[j] != '='
}

/// The key and value that one piece stands for: the text before and after its
/// first `=`, trimmed. A piece with no `=` stands for nothing.
pub open spec fn entry_of(p: Seq<char>) -> Option<(Seq<char>, Seq<char>)> {
    if exists|k: int| first_eq_at(p, k) {
        let k = choose|k: int| first_eq_at(p, k);
        Some((trim(p.subrange(0, k)), trim(p.subrange(k + 1, p.len() as int))))
    } else {
        None
    }
}

/// The map that a list of pieces gives, read from the first piece to the last:
/// a later piece with the same key replaces the value of an earlier one.
pub open spec fn headers_from(ps: Seq<Seq<char>>) -> Map<Seq<char>, Seq<char>>
    decreases ps.len(),
{
    if ps.len() == 0 {
        Map::empty()
    } else {
        let m = headers_from(ps.drop_last());
        match entry_of(ps.last()) {
            Some((k, v)) => m.insert(k, v),
            None => m,
        }
    }
}

/// The headers that a `k1=v1,k2=v2` text stands for.
pub open spec fn headers_of(s: Seq<char>) -> Map<Seq<char>, Seq<char>> {
    headers_from(split_commas(s))
}

/// A map from header names to values, each name present once, kept in the
/// order in which the names first arrived.
pub struct HeaderMap {
    entries: Vec<(String, String)>,
    contents: Ghost<Map<Seq<char>, Seq<char>>>,
}

impl View for HeaderMap {
    type V = Map<Seq<char>, Seq<char>>;

    closed spec fn view(&self) -> Map<Seq<char>, Seq<char>> {
        self.contents@
    }
}

impl HeaderMap {
    /// The entries, in order.
    pub closed spec fn entries_view(&self) -> Seq<(Seq<char>, Seq<char>)> {
        self.entries@.map_values(|e: (String, String)| (e.0@, e.1@))
    }

    pub closed spec fn wf(&self) -> bool {
        &&& forall|i: int, j: int|
            0 <= i < j < self.entries@.len() ==> self.entries@[i].0@ != self.entries@[j].0@
        &&& forall|i: int|
            0 <= i < self.entries@.len() ==> #[trigger] self.contents@.contains_key(
                self.entries@[i].0@,
            ) && self.contents@[self.entries@[i].0@] == self.entries@[i].1@
        &&& forall|k: Seq<char>|
            #[trigger] self.contents@.contains_key(k) ==> exists|i: int|
                0 <= i < self.entries@.len() && self.entries@[i].0@ == k
    }

    pub fn new() -> (r: HeaderMap)
        ensures
            r.wf(),
            r@ == Map::<Seq<char>, Seq<char>>::empty(),
            r.entries_view() == Seq::<(Seq<char>, Seq<char>)>::empty(),
    {
        let r = HeaderMap { entries: Vec::new(), contents: Ghost(Map::empty()) };
        assert(r.entries_view() =~= Seq::<(Seq<char>, Seq<char>)>::empty());
        r
    }

    /// The entries are the contents: each entry's name maps to its value, no
    /// name occurs twice, and every name of the map has an entry.
    pub proof fn lemma_entries_are_contents(&self)
        requires
            self.wf(),
        ensures
            forall|i: int|
                0 <= i < self.entries_view().len() ==> self@.contains_key(
                    #[trigger] self.entries_view()[i].0,
                ) && self@[self.entries_view()[i].0] == self.entries_view()[i].1,
            forall|i: int, j: int|
                0 <= i < j < self.entries_view().len() ==> #[trigger] self.entries_view()[i].0
                    != #[trigger] self.entries_view()[j].0,
            forall|k: Seq<char>|
                #[trigger] self@.contains_key(k) ==> exists|i: int|
                    0 <= i < self.entries_view().len() && self.entries_view()[i].0 == k,
    {
        assert forall|k: Seq<char>| #[trigger] self@.contains_key(k) implies exists|i: int|
            0 <= i < self.entries_view().len() && self.entries_view()[i].0 == k by {
            let i = choose|i: int| 0 <= i < self.entries@.len() && self.entries@[i].0@ == k;
            assert(self.entries_view()[i].0 == k);
        }
    }

    /// The number of names.
    pub fn len(&self) -> (r: usize)
        requires
            self.wf(),
        ensures
            r == self@.len(),
    {
        proof {
            self.lemma_len();
        }
        self.entries.len()
    }

    proof fn lemma_len(&self)
        requires
            self.wf(),
        ensures
            self@.len() == self.entries@.len(),
    {
        let keys = self.entries@.map_values(|e: (String, String)| e.0@);
        assert(keys.no_duplicates()) by {
            assert forall|i: int, j: int|
                0 <= i < keys.len() && 0 <= j < keys.len() && i != j implies keys[i]
                != keys[j] by {
                if i < j {
                } else {
                }
            }
        }
        assert(keys.to_set() =~= self@.dom()) by {
            assert forall|k: Seq<char>| keys.to_set().contains(k) <==> self@.dom().contains(
                k,
            ) by {
                if self@.dom().contains(k) {
                    let i = choose|i: int|
                        0 <= i < self.entries@.len() && self.entries@[i].0@ == k;
                    assert(keys[i] == k);
                }
                if keys.to_set().contains(k) {
                    let i = choose|i: int| 0 <= i < keys.len() && keys[i] == k;
                    assert(self@.contains_key(self.entries@[i].0@));
                }
            }
        }
        keys.unique_seq_to_set();
    }

    /// The value of `name`, if present.
    pub fn get(&self, name: &str) -> (r: Option<&String>)
        requires
            self.wf(),
        ensures
            r is Some <==> self@.contains_key(name@),
            r is Some ==> r->Some_0@ == self@[name@],
    {
        let key = name.to_owned();
        let mut i: usize = 0;
        while i < self.entries.len()
            invariant
                self.wf(),
                key@ == name@,
                i <= self.entries@.len(),
                forall|j: int| 0 <= j < i ==> self.entries@[j].0@ != name@,
            decreases self.entries@.len() - i,
        {
            if self.entries[i].0 == key {
                assert(self.contents@.contains_key(self.entries@[i as int].0@));
                return Some(&self.entries[i].1);
            }
            i = i + 1;
        }
        None
    }

    /// Sets `name` to `value`: a name already present keeps its place and
    /// takes the new value; a new name goes last.
    pub fn insert(&mut self, name: String, value: String)
        requires
            old(self).wf(),
        ensures
            final(self).wf(),
            final(self)@ == old(self)@.insert(name@, value@),
    {
        let ghost name_v = name@;
        let ghost value_v = value@;
        let mut i: usize = 0;
        while i < self.entries.len()
            invariant
                self.wf(),
                self == old(self),
                name@ == name_v,
                value@ == value_v,
                i <= self.entries@.len(),
                forall|j: int| 0 <= j < i ==> self.entries@[j].0@ != name@,
            decreases self.entries@.len() - i,
        {
            if self.entries[i].0 == name {
                let ghost before = self.entries@;
                let pair = (name, value);
                assert(pair.0@ == name_v);
                self.entries.set(i, pair);
                assert(self.entries@[i as int] == pair);
                self.contents = Ghost(self.contents@.insert(name_v, value_v));
                assert forall|k: Seq<char>| #[trigger]
                    self.contents@.contains_key(k) implies exists|j: int|
                    0 <= j < self.entries@.len() && self.entries@[j].0@ == k by {
                    if k != name_v {
                        let j = choose|j: int|
                            0 <= j < before.len() && before[j].0@ == k;
                        assert(self.entries@[j].0@ == k);
                    } else {
                        assert(self.entries@[i as int].0@ == k);
                    }
                }
                return ;
            }
            i = i + 1;
        }
        let ghost before = self.entries@;
        let pair = (name, value);
        self.entries.push(pair);
        assert(self.entries@[before.len() as int] == pair);
        self.contents = Ghost(self.contents@.insert(name_v, value_v));
        assert forall|k: Seq<char>| #[trigger]
            self.contents@.contains_key(k) implies exists|j: int|
            0 <= j < self.entries@.len() && self.entries@[j].0@ == k by {
            if k != name_v {
                let j = choose|j: int| 0 <= j < before.len() && before[j].0@ == k;
                assert(self.entries@[j].0@ == k);
            } else {
                assert(self.entries@[before.len() as int].0@ == k);
            }
        }
    }

    /// The entries as name and value pairs, in order.
    pub fn to_vec(&self) -> (r: Vec<(String, String)>)
        requires
            self.wf(),
        ensures
            r@.map_values(|e: (String, String)| (e.0@, e.1@)) == self.entries_view(),
    {
        let mut r: Vec<(String, String)> = Vec::new();
        let mut i: usize = 0;
        while i < self.entries.len()
            invariant
                i <= self.entries@.len(),
                r@.len() == i,
                r@.map_values(|e: (String, String)| (e.0@, e.1@)) =~= self.entries_view().take(
                    i as int,
                ),
            decreases self.entries@.len() - i,
        {
            let name = self.entries[i].0.clone();
            let value = self.entries[i].1.clone();
            r.push((name, value));
            assert(r@[i as int].0@ == self.entries_view()[i as int].0);
            assert(r@[i as int].1@ == self.entries_view()[i as int].1);
            i = i + 1;
            assert(r@.map_values(|e: (String, String)| (e.0@, e.1@)) =~= self.entries_view().take(
                i as int,
            ));
        }
        assert(self.entries_view().take(i as int) =~= self.entries_view());
        r
    }
}


fn is_white_char(c: char) -> (r: bool)
    ensures
        r == is_white(c),
{
    let u = c as u32;
    (0x09 <= u && u <= 0x0d) || u == 0x20 || u == 0x85 || u == 0xa0 || u == 0x1680 || (0x2000
        <= u && u <= 0x200a) || u == 0x2028 || u == 0x2029 || u == 0x202f || u == 0x205f || u
        == 0x3000
}

/// The bounds, within `from..to`, of the text of `s` there without leading and
/// trailing white space.
fn trim_bounds(s: &str, from: usize, to: usize) -> (r: (usize, usize))
    requires
        from <= to <= s@.len(),
    ensures
        from <= r.0 <= r.1 <= to,
        s@.subrange(r.0 as int, r.1 as int) == trim(s@.subrange(from as int, to as int)),
{
    let mut a = from;
    while a < to && is_white_char(s.get_char(a))
        invariant
            from <= a <= to <= s@.len(),
            trim_start(s@.subrange(from as int, to as int)) == trim_start(
                s@.subrange(a as int, to as int),
            ),
        decreases to - a,
    {
        assert(s@.subrange(a as int, to as int).drop_first() =~= s@.subrange(
            a + 1,
            to as int,
        ));
        a = a + 1;
    }
    let mut b = to;
    while b > a && is_white_char(s.get_char(b - 1))
        invariant
            from <= a <= b <= to <= s@.len(),
            trim_start(s@.subrange(from as int, to as int)) == s@.subrange(a as int, to as int),
            trim_end(s@.subrange(a as int, to as int)) == trim_end(
                s@.subrange(a as int, b as int),
            ),
        decreases b - a,
    {
        assert(s@.subrange(a as int, b as int).drop_last() =~= s@.subrange(
            a as int,
            b - 1,
        ));
        b = b - 1;
    }
    (a, b)
}

proof fn lemma_split_nonempty(s: Seq<char>)
    ensures
        split_commas(s).len() >= 1,
    decreases s.len(),
{
    if s.len() > 0 {
        lemma_split_nonempty(s.drop_last());
    }
}

proof fn lemma_split_concat(s: Seq<char>, t: Seq<char>)
    ensures
        split_commas(s + seq![','] + t) == split_commas(s) + split_commas(t),
    decreases t.len(),
{
    let x = s + seq![','] + t;
    if t.len() == 0 {
        assert(x.drop_last() =~= s);
        assert(split_commas(s) + split_commas(t) =~= split_commas(s).push(Seq::empty()));
    } else {
        assert(x.drop_last() =~= s + seq![','] + t.drop_last());
        lemma_split_concat(s, t.drop_last());
        lemma_split_nonempty(t.drop_last());
        let a = split_commas(s);
        let b = split_commas(t.drop_last());
        if t.last() == ',' {
            assert((a + b).push(Seq::empty()) =~= a + b.push(Seq::empty()));
        } else {
            assert((a + b).update((a + b).len() - 1, (a + b).last().push(t.last())) =~= a
                + b.update(b.len() - 1, b.last().push(t.last())));
        }
    }
}

proof fn lemma_split_single(t: Seq<char>)
    requires
        forall|i: int| 0 <= i < t.len() ==> t[i] != ',',
    ensures
        split_commas(t) == seq![t],
    decreases t.len(),
{
    if t.len() == 0 {
        assert(t =~= Seq::<char>::empty());
    } else {
        lemma_split_single(t.drop_last());
        let prev = split_commas(t.drop_last());
        assert(prev.len() == 1 && prev.last() == t.drop_last());
        assert(t.last() == t[t.len() - 1]);
        assert(t.last() != ',');
        assert(t.drop_last().push(t.last()) =~= t);
        assert(seq![t.drop_last()].update(0, t) =~= seq![t]);
    }
}

proof fn lemma_headers_skip_first(t: Seq<char>, ps: Seq<Seq<char>>)
    requires
        entry_of(t) is None,
    ensures
        headers_from(seq![t] + ps) == headers_from(ps),
    decreases ps.len(),
{
    if ps.len() == 0 {
        let q = seq![t] + ps;
        assert(q.drop_last() =~= Seq::<Seq<char>>::empty());
        assert(q.last() == t);
        assert(headers_from(q.drop_last()) == Map::<Seq<char>, Seq<char>>::empty());
        assert(headers_from(q) == headers_from(q.drop_last()));
    } else {
        assert((seq![t] + ps).drop_last() =~= seq![t] + ps.drop_last());
        let q = seq![t] + ps;
        assert(q.last() == ps.last());
        lemma_headers_skip_first(t, ps.drop_last());
        assert(headers_from(q.drop_last()) == headers_from(ps.drop_last()));
    }
}

/// A piece with neither `,` nor `=` adds nothing to the headers, whether it
/// comes after the rest of the text or before it.
pub proof fn lemma_malformed_piece_is_dropped(s: Seq<char>, t: Seq<char>)
    requires
        forall|i: int| 0 <= i < t.len() ==> t[i] != ',' && t[i] != '=',
    ensures
        headers_of(s + seq![','] + t) == headers_of(s),
        headers_of(t + seq![','] + s) == headers_of(s),
{
    assert(entry_of(t) is None) by {
        assert forall|k: int| !first_eq_at(t, k) by {}
    }
    lemma_split_single(t);
    lemma_split_concat(s, t);
    lemma_split_concat(t, s);
    let ps = split_commas(s);
    assert((ps + seq![t]).drop_last() =~= ps);
    lemma_headers_skip_first(t, ps);
}

/// The piece at `i` of `ps` has an `=` and gives the name `k`.
pub open spec fn gives_name(ps: Seq<Seq<char>>, i: int, k: Seq<char>) -> bool {
    0 <= i < ps.len() && entry_of(ps[i]) is Some && entry_of(ps[i])->Some_0.0 == k
}

proof fn lemma_headers_from_pieces(ps: Seq<Seq<char>>)
    ensures
        forall|k: Seq<char>|
            #[trigger] headers_from(ps).contains_key(k) <==> exists|i: int| gives_name(ps, i, k),
        forall|i: int, k: Seq<char>|
            #[trigger] gives_name(ps, i, k) && (forall|j: int| i < j < ps.len() ==> !gives_name(
                ps,
                j,
                k,
            )) ==> headers_from(ps)[k] == entry_of(ps[i])->Some_0.1,
    decreases ps.len(),
{
    if ps.len() > 0 {
        let q = ps.drop_last();
        let n = ps.len() - 1;
        lemma_headers_from_pieces(q);
        assert forall|i: int, k: Seq<char>| 0 <= i < n implies gives_name(ps, i, k)
            == gives_name(q, i, k) by {
            assert(ps[i] == q[i]);
        }
        assert forall|k: Seq<char>| #[trigger] headers_from(ps).contains_key(k) <==> exists|i: int|
            gives_name(ps, i, k) by {
            if headers_from(ps).contains_key(k) {
                if gives_name(ps, n, k) {
                } else {
                    assert(ps.last() == ps[n]);
                    assert(headers_from(q).contains_key(k));
                    let i = choose|i: int| gives_name(q, i, k);
                    assert(gives_name(ps, i, k));
                }
            }
            if exists|i: int| gives_name(ps, i, k) {
                let i = choose|i: int| gives_name(ps, i, k);
                if i < n {
                    assert(gives_name(q, i, k));
                }
            }
        }
        assert forall|i: int, k: Seq<char>|
            #[trigger] gives_name(ps, i, k) && (forall|j: int| i < j < ps.len() ==> !gives_name(
                ps,
                j,
                k,
            )) implies headers_from(ps)[k] == entry_of(ps[i])->Some_0.1 by {
            if i < n {
                assert(gives_name(q, i, k));
                assert(!gives_name(ps, n, k));
                assert forall|j: int| i < j < q.len() implies !gives_name(q, j, k) by {
                    assert(!gives_name(ps, j, k));
                }
            }
        }
    }
}

/// A name is among the headers exactly when a piece with `=` gives it, and
/// its value is the one that the last such piece gives.
pub proof fn lemma_headers_are_last_pieces(s: Seq<char>)
    ensures
        forall|k: Seq<char>|
            #[trigger] headers_of(s).contains_key(k) <==> exists|i: int|
                gives_name(split_commas(s), i, k),
        forall|i: int, k: Seq<char>|
            #[trigger] gives_name(split_commas(s), i, k) && (forall|j: int|
                i < j < split_commas(s).len() ==> !gives_name(split_commas(s), j, k))
                ==> headers_of(s)[k] == entry_of(split_commas(s)[i])->Some_0.1,
{
    lemma_headers_from_pieces(split_commas(s));
}

/// Adds to `map` the entry that the piece `from..to` of `s` stands for, given
/// the position of its first `=`, if it has one.
fn add_piece(map: &mut HeaderMap, s: &str, from: usize, to: usize, eq: Option<usize>)
    requires
        old(map).wf(),
        from <= to <= s@.len(),
        eq is Some ==> from <= eq->Some_0 < to && first_eq_at(
            s@.subrange(from as int, to as int),
            eq->Some_0 - from,
        ),
        eq is None ==> forall|j: int| from <= j < to ==> s@[j] != '=',
    ensures
        final(map).wf(),
        final(map)@ == match entry_of(s@.subrange(from as int, to as int)) {
            Some((k, v)) => old(map)@.insert(k, v),
            None => old(map)@,
        },
{
    let ghost p = s@.subrange(from as int, to as int);
    match eq {
        None => {
            assert(!exists|k: int| first_eq_at(p, k)) by {
                assert forall|k: int| !first_eq_at(p, k) by {
                    if 0 <= k < p.len() {
                        assert(p[k] == s@[from + k]);
                    }
                }
            }
        },
        Some(e) => {
            let ghost k = e - from;
            assert(first_eq_at(p, k));
            let ghost c = choose|c: int| first_eq_at(p, c);
            assert(c == k) by {
                if c < k {
                    assert(p[c] == '=');
                } else if k < c {
                    assert(p[k] == '=');
                }
            }
            assert(p.subrange(0, k) =~= s@.subrange(from as int, e as int));
            assert(p.subrange(k + 1, p.len() as int) =~= s@.subrange(e + 1, to as int));
            let (ka, kb) = trim_bounds(s, from, e);
            let (va, vb) = trim_bounds(s, e + 1, to);
            let name = s.substring_char(ka, kb).to_owned();
            let value = s.substring_char(va, vb).to_owned();
            map.insert(name, value);
        },
    }
}

/// Reads a `k1=v1,k2=v2` text into a map. Each comma-separated piece is split
/// at its first `=`, and both sides are trimmed of white space; a piece without
/// `=` is dropped, and a later piece with the same name replaces an earlier one.
pub fn parse_custom_headers(s: String) -> (r: HeaderMap)
    ensures
        r.wf(),
        r@ == headers_of(s@),
{
    let t = s.as_str();
    let n = t.unicode_len();
    let mut map = HeaderMap::new();
    let mut start: usize = 0;
    let mut eq: Option<usize> = None;
    let mut i: usize = 0;
    proof {
        assert(t@.subrange(0, 0) =~= Seq::<char>::empty());
        assert(split_commas(t@.subrange(0, 0)).drop_last() =~= Seq::<Seq<char>>::empty());
    }
    while i < n
        invariant
            n == t@.len(),
            t@ == s@,
            0 <= start <= i <= n,
            map.wf(),
            split_commas(t@.subrange(0, i as int)).last() == t@.subrange(start as int, i as int),
            map@ == headers_from(split_commas(t@.subrange(0, i as int)).drop_last()),
            eq is Some ==> start <= eq->Some_0 < i && first_eq_at(
                t@.subrange(start as int, i as int),
                eq->Some_0 - start,
            ),
            eq is None ==> forall|j: int| start <= j < i ==> t@[j] != '=',
        decreases n - i,
    {
        let c = t.get_char(i);
        let ghost prefix = t@.subrange(0, i as int);
        let ghost next = t@.subrange(0, i + 1);
        let ghost prev = split_commas(prefix);
        proof {
            assert(next.drop_last() =~= prefix);
            lemma_split_nonempty(prefix);
        }
        if c == ',' {
            add_piece(&mut map, t, start, i, eq);
            proof {
                assert(split_commas(next).drop_last() =~= prev);
                assert(prev =~= prev.drop_last().push(prev.last()));
                assert(t@.subrange(i + 1, i + 1) =~= Seq::<char>::empty());
            }
            start = i + 1;
            eq = None;
        } else {
            proof {
                assert(split_commas(next).drop_last() =~= prev.drop_last());
                assert(split_commas(next).last() =~= t@.subrange(start as int, i + 1));
                let q = t@.subrange(start as int, i + 1);
                assert(q.subrange(0, q.len() - 1) =~= t@.subrange(start as int, i as int));
            }
            if c == '=' && eq.is_none() {
                eq = Some(i);
            }
        }
        i = i + 1;
    }
    proof {
        let whole = t@.subrange(0, n as int);
        assert(whole =~= s@);
        lemma_split_nonempty(whole);
        let ps = split_commas(whole);
        assert(ps =~= ps.drop_last().push(ps.last()));
    }
    add_piece(&mut map, t, start, n, eq);
    map
}

} // verus!
