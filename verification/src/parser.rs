use vstd::prelude::*;

verus! {

/// The index of the first occurrence of `c` in `s`, if any.
pub open spec fn find_idx(s: Seq<char>, c: char) -> Option<int>
    decreases s.len(),
{
    if s.len() == 0 {
        None
    } else if s[0] == c {
        Some(0int)
    } else {
        match find_idx(s.skip(1), c) {
            Some(i) => Some(i + 1),
            None => None,
        }
    }
}

/// `find_idx` finds exactly the first occurrence.
pub proof fn lemma_find_idx_props(s: Seq<char>, c: char)
    ensures
        match find_idx(s, c) {
            Some(i) => 0 <= i < s.len() && s[i] == c && (forall|j: int| 0 <= j < i ==> s[j] != c),
            None => forall|j: int| 0 <= j < s.len() ==> s[j] != c,
        },
    decreases s.len(),
{
    if s.len() > 0 && s[0] != c {
        lemma_find_idx_props(s.skip(1), c);
        match find_idx(s.skip(1), c) {
            Some(i) => {
                assert(s[i + 1] == s.skip(1)[i]);
                assert forall|j: int| 0 <= j < i + 1 implies s[j] != c by {
                    if j > 0 {
                        assert(s.skip(1)[j - 1] != c);
                    }
                }
            },
            None => {
                assert forall|j: int| 0 <= j < s.len() implies s[j] != c by {
                    if j > 0 {
                        assert(s.skip(1)[j - 1] != c);
                    }
                }
            },
        }
    }
}

/// A first occurrence at `i` pins `find_idx` down to `Some(i)`.
pub proof fn lemma_find_idx_at(s: Seq<char>, c: char, i: int)
    requires
        0 <= i < s.len(),
        s[i] == c,
        forall|j: int| 0 <= j < i ==> s[j] != c,
    ensures
        find_idx(s, c) == Some(i),
    decreases i,
{
    if i > 0 {
        lemma_find_idx_at(s.skip(1), c, i - 1);
    }
}

/// No occurrence at all pins `find_idx` down to `None`.
pub proof fn lemma_find_idx_absent(s: Seq<char>, c: char)
    requires
        forall|j: int| 0 <= j < s.len() ==> s[j] != c,
    ensures
        find_idx(s, c) is None,
    decreases s.len(),
{
    if s.len() > 0 {
        lemma_find_idx_absent(s.skip(1), c);
    }
}

/// One query item split on its first `=`: the key, and the value — absent
/// when the item has no `=`, present and possibly empty otherwise.
pub open spec fn item_pair(item: Seq<char>) -> (Seq<char>, Option<Seq<char>>) {
    match find_idx(item, '=') {
        None => (item, None),
        Some(i) => (item.take(i), Some(item.skip(i + 1))),
    }
}

/// The view of an optional exec string.
pub open spec fn option_string_view(v: Option<String>) -> Option<Seq<char>> {
    match v {
        None => None,
        Some(s) => Some(s@),
    }
}

/// Fold a query string into a parameter map, item by item, splitting on `&`:
/// each item's key is inserted in order, so a repeated key keeps the later
/// occurrence.
pub open spec fn apply_query(
    m: Map<Seq<char>, Option<Seq<char>>>,
    s: Seq<char>,
) -> Map<Seq<char>, Option<Seq<char>>>
    decreases s.len(),
    via apply_query_dec
{
    match find_idx(s, '&') {
        None => m.insert(item_pair(s).0, item_pair(s).1),
        Some(i) => apply_query(m.insert(item_pair(s.take(i)).0, item_pair(s.take(i)).1), s.skip(i + 1)),
    }
}

#[via_fn]
proof fn apply_query_dec(m: Map<Seq<char>, Option<Seq<char>>>, s: Seq<char>) {
    lemma_find_idx_props(s, '&');
}

/// The endpoint of a request path: everything before the first `?`, or the
/// whole path when there is none.
pub open spec fn spec_endpoint(url: Seq<char>) -> Seq<char> {
    match find_idx(url, '?') {
        None => url,
        Some(i) => url.take(i),
    }
}

/// The parameter map of a request path: empty when there is no `?`, otherwise
/// the fold of the query component.
pub open spec fn spec_params(url: Seq<char>) -> Map<Seq<char>, Option<Seq<char>>> {
    match find_idx(url, '?') {
        None => Map::empty(),
        Some(i) => apply_query(Map::empty(), url.skip(i + 1)),
    }
}

/// The view of a parameter list as a key-to-optional-value map, later
/// occurrences of a key winning.
pub open spec fn map_of(pairs: Seq<(String, Option<String>)>) -> Map<Seq<char>, Option<Seq<char>>>
    decreases pairs.len(),
{
    if pairs.len() == 0 {
        Map::empty()
    } else {
        map_of(pairs.drop_last()).insert(
            pairs.last().0@,
            option_string_view(pairs.last().1),
        )
    }
}

/// A key of the map is exactly a key of some pair.
proof fn lemma_map_of_keys(pairs: Seq<(String, Option<String>)>, k: Seq<char>)
    ensures
        map_of(pairs).contains_key(k) <==> exists|i: int|
            0 <= i < pairs.len() && (#[trigger] pairs[i].0@) == k,
    decreases pairs.len(),
{
    if pairs.len() > 0 {
        lemma_map_of_keys(pairs.drop_last(), k);
        if map_of(pairs).contains_key(k) {
            if pairs.last().0@ == k {
                assert(pairs[pairs.len() - 1].0@ == k);
            } else {
                let i = choose|i: int| 0 <= i < pairs.drop_last().len() && (#[trigger] pairs.drop_last()[i].0@) == k;
                assert(pairs[i].0@ == k);
            }
        }
        if exists|i: int| 0 <= i < pairs.len() && (#[trigger] pairs[i].0@) == k {
            let i = choose|i: int| 0 <= i < pairs.len() && (#[trigger] pairs[i].0@) == k;
            if i < pairs.len() - 1 {
                assert(pairs.drop_last()[i].0@ == k);
            }
        }
    }
}

/// The pair whose key has no later duplicate gives the map's value at that key.
proof fn lemma_map_of_at(pairs: Seq<(String, Option<String>)>, i: int)
    requires
        0 <= i < pairs.len(),
        forall|j: int| i < j < pairs.len() ==> (#[trigger] pairs[j].0@) != pairs[i].0@,
    ensures
        map_of(pairs).contains_key(pairs[i].0@),
        map_of(pairs)[pairs[i].0@] == option_string_view(pairs[i].1),
    decreases pairs.len(),
{
    if i < pairs.len() - 1 {
        assert(forall|j: int|
            i < j < pairs.drop_last().len() ==> (#[trigger] pairs.drop_last()[j].0@) != pairs.drop_last()[i].0@);
        lemma_map_of_at(pairs.drop_last(), i);
        assert(pairs[pairs.len() - 1].0@ != pairs[i].0@);
    }
}

/// An ordered key-to-optional-value parameter list. A key maps to `None` when
/// it stood in the query without any `=`; inserting an existing key replaces
/// its value.
pub struct QueryParams {
    pairs: Vec<(String, Option<String>)>,
}

impl View for QueryParams {
    type V = Map<Seq<char>, Option<Seq<char>>>;

    closed spec fn view(&self) -> Map<Seq<char>, Option<Seq<char>>> {
        map_of(self.pairs@)
    }
}

impl QueryParams {
    /// No two stored pairs share a key.
    pub closed spec fn wf(&self) -> bool {
        forall|i: int, j: int|
            0 <= i < j < self.pairs@.len() ==> (#[trigger] self.pairs@[i].0@) != (
            #[trigger] self.pairs@[j].0@)
    }

    pub fn new() -> (r: QueryParams)
        ensures
            r.wf(),
            r@ == Map::<Seq<char>, Option<Seq<char>>>::empty(),
    {
        QueryParams { pairs: vec![] }
    }

    /// Insert a key with its optional value; an existing key is overwritten.
    pub fn insert(&mut self, key: String, value: Option<String>)
        requires
            old(self).wf(),
        ensures
            final(self).wf(),
            final(self)@ == old(self)@.insert(key@, option_string_view(value)),
    {
        let ghost pre = self.pairs@;
        let mut i: usize = 0;
        while i < self.pairs.len()
            invariant
                self.pairs@ == pre,
                pre == old(self).pairs@,
                0 <= i <= pre.len(),
                forall|a: int, b: int|
                    0 <= a < b < pre.len() ==> (#[trigger] pre[a].0@) != (#[trigger] pre[b].0@),
                forall|j: int| 0 <= j < i ==> (#[trigger] pre[j].0@) != key@,
            decreases pre.len() - i,
        {
            if self.pairs[i].0 == key {
                proof {
                    assert forall|j: int| i < j < pre.len() implies (#[trigger] pre[j].0@)
                        != pre[i as int].0@ by {
                        assert(pre[i as int].0@ != pre[j].0@);
                    }
                }
                let p = &mut self.pairs[i];
                *p = (key, value);
                proof {
                    let newp = self.pairs@[i as int];
                    assert(self.pairs@ =~= pre.update(i as int, newp));
                    lemma_map_of_replace(pre, i as int, newp);
                    assert forall|a: int, b: int|
                        0 <= a < b < self.pairs@.len() implies (#[trigger] self.pairs@[a].0@) != (
                    #[trigger] self.pairs@[b].0@) by {
                        assert(self.pairs@[a].0@ == pre[a].0@);
                        assert(self.pairs@[b].0@ == pre[b].0@);
                    }
                }
                return ;
            }
            i = i + 1;
        }
        self.pairs.push((key, value));
        proof {
            assert(self.pairs@.drop_last() =~= pre);
        }
    }

    /// Look a key up: `None` when the key is absent, otherwise its optional
    /// value.
    pub fn get(&self, key: &str) -> (r: Option<&Option<String>>)
        requires
            self.wf(),
        ensures
            match r {
                None => !self@.contains_key(key@),
                Some(v) => self@.contains_key(key@) && option_string_view(*v) == self@[key@],
            },
    {
        let k = String::from_str(key);
        let mut i: usize = 0;
        while i < self.pairs.len()
            invariant
                self.wf(),
                k@ == key@,
                0 <= i <= self.pairs@.len(),
                forall|j: int| 0 <= j < i ==> (#[trigger] self.pairs@[j].0@) != key@,
            decreases self.pairs@.len() - i,
        {
            if self.pairs[i].0 == k {
                proof {
                    lemma_map_of_at(self.pairs@, i as int);
                }
                return Some(&self.pairs[i].1);
            }
            i = i + 1;
        }
        proof {
            lemma_map_of_keys(self.pairs@, key@);
        }
        None
    }

    /// True when some key is present with an absent value (a key that stood in
    /// the query with no `=` at all) — the global malformed-query test.
    pub fn any_value_absent(&self) -> (r: bool)
        requires
            self.wf(),
        ensures
            r == exists|k: Seq<char>| #[trigger] self@.contains_key(k) && self@[k] is None,
    {
        let mut i: usize = 0;
        while i < self.pairs.len()
            invariant
                self.wf(),
                0 <= i <= self.pairs@.len(),
                forall|j: int| 0 <= j < i ==> (#[trigger] self.pairs@[j].1) is Some,
            decreases self.pairs@.len() - i,
        {
            if self.pairs[i].1.is_none() {
                proof {
                    lemma_map_of_at(self.pairs@, i as int);
                    assert(self@.contains_key(self.pairs@[i as int].0@)
                        && self@[self.pairs@[i as int].0@] is None);
                }
                return true;
            }
            i = i + 1;
        }
        proof {
            assert forall|k: Seq<char>| #[trigger] self@.contains_key(k) implies self@[k] is Some by {
                lemma_map_of_keys(self.pairs@, k);
                let w = choose|w: int| 0 <= w < self.pairs@.len() && (#[trigger] self.pairs@[w].0@) == k;
                lemma_map_of_at(self.pairs@, w);
            }
        }
        false
    }
}

/// Replacing the pair that owns a key (no later duplicate) is an insert at
/// that key.
proof fn lemma_map_of_replace(pairs: Seq<(String, Option<String>)>, i: int, p: (String, Option<String>))
    requires
        0 <= i < pairs.len(),
        p.0@ == pairs[i].0@,
        forall|j: int| i < j < pairs.len() ==> (#[trigger] pairs[j].0@) != pairs[i].0@,
    ensures
        map_of(pairs.update(i, p)) == map_of(pairs).insert(p.0@, option_string_view(p.1)),
    decreases pairs.len(),
{
    if i == pairs.len() - 1 {
        assert(pairs.update(i, p).drop_last() =~= pairs.drop_last());
        assert(map_of(pairs.update(i, p)) =~= map_of(pairs).insert(p.0@, option_string_view(p.1)));
    } else {
        assert(pairs.update(i, p).drop_last() =~= pairs.drop_last().update(i, p));
        assert(forall|j: int|
            i < j < pairs.drop_last().len() ==> (#[trigger] pairs.drop_last()[j].0@) != pairs.drop_last()[i].0@);
        lemma_map_of_replace(pairs.drop_last(), i, p);
        assert(pairs[pairs.len() - 1].0@ != p.0@);
        assert(map_of(pairs.update(i, p)) =~= map_of(pairs).insert(p.0@, option_string_view(p.1)));
    }
}

/// The parsed form of a request path: the endpoint before the first `?`, and
/// the ordered parameter mapping of the query component.
pub struct ParsedUrl {
    pub endpoint: String,
    pub params: QueryParams,
}

/// The first occurrence of `c` in `s`, executably.
fn find_char(s: &str, c: char) -> (r: Option<usize>)
    ensures
        match r {
            Some(i) => find_idx(s@, c) == Some(i as int),
            None => find_idx(s@, c) is None,
        },
{
    let n = s.unicode_len();
    let mut i: usize = 0;
    while i < n
        invariant
            n == s@.len(),
            0 <= i <= n,
            forall|j: int| 0 <= j < i ==> s@[j] != c,
        decreases n - i,
    {
        if s.get_char(i) == c {
            proof {
                lemma_find_idx_at(s@, c, i as int);
            }
            return Some(i);
        }
        i = i + 1;
    }
    proof {
        lemma_find_idx_absent(s@, c);
    }
    None
}

/// Split one query item on its first `=` and insert it.
fn insert_item(item: &str, params: &mut QueryParams)
    requires
        old(params).wf(),
    ensures
        final(params).wf(),
        final(params)@ == old(params)@.insert(item_pair(item@).0, item_pair(item@).1),
{
    let n = item.unicode_len();
    match find_char(item, '=') {
        None => {
            params.insert(String::from_str(item), None);
        },
        Some(i) => {
            proof {
                lemma_find_idx_props(item@, '=');
            }
            let key = String::from_str(item.substring_char(0, i));
            let value = String::from_str(item.substring_char(i + 1, n));
            params.insert(key, Some(value));
            proof {
                assert(key@ =~= item_pair(item@).0);
                assert(value@ =~= item_pair(item@).1->0);
            }
        },
    }
}

/// Fold a whole query string into the parameter list, splitting on `&`.
fn parse_query(s: &str, params: &mut QueryParams)
    requires
        old(params).wf(),
    ensures
        final(params).wf(),
        final(params)@ == apply_query(old(params)@, s@),
    decreases s@.len(),
{
    let n = s.unicode_len();
    match find_char(s, '&') {
        None => {
            insert_item(s, params);
        },
        Some(i) => {
            proof {
                lemma_find_idx_props(s@, '&');
            }
            let head = s.substring_char(0, i);
            insert_item(head, params);
            proof {
                assert(head@ =~= s@.take(i as int));
            }
            let rest = s.substring_char(i + 1, n);
            proof {
                assert(rest@ =~= s@.skip(i as int + 1));
            }
            parse_query(rest, params);
        },
    }
}

/// Split a request path on its first `?` into the endpoint and the parameter
/// mapping of the query component; with no `?` the mapping is empty. An item
/// without `=` keys an absent value; an item with a trailing `=` keys a
/// present, empty one; a repeated key keeps the later occurrence.
pub fn parse_url(url: &str) -> (r: ParsedUrl)
    ensures
        r.params.wf(),
        r.endpoint@ == spec_endpoint(url@),
        r.params@ == spec_params(url@),
{
    let n = url.unicode_len();
    match find_char(url, '?') {
        None => ParsedUrl { endpoint: String::from_str(url), params: QueryParams::new() },
        Some(q) => {
            proof {
                lemma_find_idx_props(url@, '?');
            }
            let endpoint = String::from_str(url.substring_char(0, q));
            let query = url.substring_char(q + 1, n);
            let mut params = QueryParams::new();
            parse_query(query, &mut params);
            proof {
                assert(endpoint@ =~= spec_endpoint(url@));
                assert(query@ =~= url@.skip(q as int + 1));
            }
            ParsedUrl { endpoint, params }
        },
    }
}

} // verus!
